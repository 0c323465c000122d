//! Tests of the instruction codec and the small wire helpers.

use redbpf::insn::{encode_insns, parse_insns, Insn};
use redbpf::map::parse_map_def;
use redbpf::program::Program;
use redbpf::error::{LoadError, ParseFault};

#[test]
fn instructions_decode_field_by_field() {
    // code, dst|src<<4, off lo, off hi, imm (little-endian).
    let bytes = [0x18u8, 0x21, 0x34, 0x12, 0x78, 0x56, 0x34, 0x12];
    let v = parse_insns(&bytes).unwrap();
    assert_eq!(v.len(), 1);
    assert_eq!(
        v[0],
        Insn { code: 0x18, dst_reg: 1, src_reg: 2, off: 0x1234, imm: 0x12345678 }
    );
}

#[test]
fn instruction_codec_round_trips() {
    let bytes: Vec<u8> = (0u8..32).collect();
    let v = parse_insns(&bytes).unwrap();
    assert_eq!(encode_insns(&v), bytes);
}

#[test]
fn negative_immediates_survive() {
    let bytes = [0x07u8, 0x00, 0x00, 0x00, 0xff, 0xff, 0xff, 0xff];
    let v = parse_insns(&bytes).unwrap();
    assert_eq!(v[0].imm, -1);
    assert_eq!(encode_insns(&v), bytes);
}

#[test]
fn ragged_code_is_refused() {
    assert!(matches!(parse_insns(&[0u8; 9]), Err(ParseFault::ProgramCode)));
}

#[test]
fn map_descriptor_fields() {
    let mut d = Vec::new();
    for v in [4u32, 8, 32, 1024, 2] {
        d.extend_from_slice(&v.to_le_bytes());
    }
    let def = parse_map_def(&d).unwrap();
    assert_eq!(def.kind, 4);
    assert_eq!(def.key_size, 8);
    assert_eq!(def.value_size, 32);
    assert_eq!(def.max_entries, 1024);
    assert_eq!(def.map_flags, 2);
}

#[test]
fn program_new_builds_from_parts() {
    let p = Program::new("kprobe", "sys_close", &[0u8; 16]).unwrap();
    assert_eq!(p.name, "sys_close");
    assert_eq!(p.code.len(), 2);
    assert!(!p.is_loaded());
    assert!(!p.is_attached());
    match Program::new("nope", "x", &[]) {
        Err(LoadError::Section(s)) => assert_eq!(s, "nope"),
        _ => panic!("an unknown category must be refused"),
    }
    assert!(matches!(
        Program::new("kprobe", "x", &[0u8; 7]),
        Err(LoadError::Parse(ParseFault::ProgramCode))
    ));
}

#[test]
fn interior_nul_is_a_string_conversion_failure() {
    let mut p = Program::new("kprobe", "bad\0name", &[0u8; 8]).unwrap();
    p.load_complete(3, String::new()).unwrap();
    let license = String::from("GPL");
    assert!(matches!(
        p.load_request(0, &license),
        Err(LoadError::StringConversion)
    ));
    assert!(matches!(p.attach_probe_request(), Err(LoadError::StringConversion)));
}
