//! The fixed-width instruction of the kernel's restricted virtual machine,
//! and its wire encoding inside object-file program sections.

use vstd::prelude::*;

use crate::error::ParseFault;
use crate::wire::{le16, le32, read_u16, read_u32};

verus! {

/// The source-register sentinel that tells the kernel verifier the
/// immediate field carries a map descriptor.
pub const PSEUDO_MAP_FD: u8 = 1;

/// One decoded virtual-machine instruction.
///
/// The wire form packs the two register numbers into one byte; here they
/// are separate fields, each below 16.
#[derive(Clone, Copy, Debug, PartialEq, Eq, Structural)]
pub struct Insn {
    pub code: u8,
    pub dst_reg: u8,
    pub src_reg: u8,
    pub off: u16,
    pub imm: i32,
}

impl Insn {
    /// Both register fields fit the four bits the wire form grants them.
    pub open spec fn wf(self) -> bool {
        self.dst_reg < 16 && self.src_reg < 16
    }
}

/// The instruction encoded at byte offset `i`.
pub open spec fn spec_insn(b: Seq<u8>, i: int) -> Insn
    recommends
        0 <= i,
        i + 8 <= b.len(),
{
    Insn {
        code: b[i],
        dst_reg: b[i + 1] & 0x0f,
        src_reg: b[i + 1] >> 4,
        off: le16(b, i + 2) as u16,
        imm: le32(b, i + 4) as u32 as i32,
    }
}

/// All instructions packed into a program section, in order.
pub open spec fn spec_insns(b: Seq<u8>) -> Seq<Insn> {
    Seq::new((b.len() / 8) as nat, |k: int| spec_insn(b, k * 8))
}

/// Decodes a program section: accepted exactly when the section is a
/// whole number of instructions.
pub fn parse_insns(b: &[u8]) -> (r: Result<Vec<Insn>, ParseFault>)
    ensures
        match r {
            Ok(v) => b@.len() % 8 == 0 && v@ == spec_insns(b@) && forall|k: int|
                0 <= k < v@.len() ==> (#[trigger] v@[k]).wf(),
            Err(f) => b@.len() % 8 != 0 && f == ParseFault::ProgramCode,
        },
{
    let n = b.len();
    if n % 8 != 0 {
        return Err(ParseFault::ProgramCode);
    }
    let count = n / 8;
    let mut v: Vec<Insn> = Vec::new();
    let mut k: usize = 0;
    while k < count
        invariant
            n == b@.len(),
            n % 8 == 0,
            count == n / 8,
            k <= count,
            v@.len() == k,
            forall|j: int| 0 <= j < k ==> v@[j] == spec_insn(b@, j * 8),
            forall|j: int| 0 <= j < k ==> (#[trigger] v@[j]).wf(),
        decreases count - k,
    {
        let p = k * 8;
        let regs = b[p + 1];
        let dst = regs & 0x0f;
        let src = regs >> 4;
        proof {
            assert(dst < 16 && src < 16) by (bit_vector)
                requires
                    dst == regs & 0x0f,
                    src == regs >> 4,
            ;
        }
        let insn = Insn {
            code: b[p],
            dst_reg: dst,
            src_reg: src,
            off: read_u16(b, p + 2),
            imm: read_u32(b, p + 4) as i32,
        };
        v.push(insn);
        k = k + 1;
    }
    proof {
        assert(v@ =~= spec_insns(b@));
    }
    Ok(v)
}

/// The wire bytes of one instruction.
pub open spec fn spec_insn_bytes(x: Insn) -> Seq<u8>
    recommends
        x.wf(),
{
    seq![
        x.code,
        (x.dst_reg | x.src_reg << 4) as u8,
        (x.off & 0xff) as u8,
        (x.off >> 8) as u8,
        (x.imm as u32 & 0xff) as u8,
        ((x.imm as u32 >> 8) & 0xff) as u8,
        ((x.imm as u32 >> 16) & 0xff) as u8,
        ((x.imm as u32 >> 24) & 0xff) as u8,
    ]
}

/// The wire bytes of a whole instruction array, in order.
pub open spec fn spec_insns_bytes(v: Seq<Insn>) -> Seq<u8>
    decreases v.len(),
{
    if v.len() == 0 {
        Seq::empty()
    } else {
        spec_insns_bytes(v.drop_last()) + spec_insn_bytes(v.last())
    }
}

/// Packs an instruction array back into its wire form, as the kernel
/// expects it at load time.
pub fn encode_insns(v: &Vec<Insn>) -> (r: Vec<u8>)
    requires
        forall|k: int| 0 <= k < v@.len() ==> (#[trigger] v@[k]).wf(),
    ensures
        r@ == spec_insns_bytes(v@),
        r@.len() == 8 * v@.len(),
{
    proof {
        lemma_insns_bytes_len(v@);
    }
    let mut out: Vec<u8> = Vec::new();
    let mut k: usize = 0;
    while k < v.len()
        invariant
            k <= v@.len(),
            forall|j: int| 0 <= j < v@.len() ==> (#[trigger] v@[j]).wf(),
            out@ == spec_insns_bytes(v@.subrange(0, k as int)),
            out@.len() == 8 * k,
        decreases v@.len() - k,
    {
        let x = v[k];
        out.push(x.code);
        out.push(x.dst_reg | x.src_reg << 4);
        out.push((x.off & 0xff) as u8);
        out.push((x.off >> 8) as u8);
        let imm = x.imm as u32;
        out.push((imm & 0xff) as u8);
        out.push(((imm >> 8) & 0xff) as u8);
        out.push(((imm >> 16) & 0xff) as u8);
        out.push(((imm >> 24) & 0xff) as u8);
        proof {
            let pre = v@.subrange(0, k + 1 as int);
            assert(pre.drop_last() =~= v@.subrange(0, k as int));
            assert(pre.last() == v@[k as int]);
            assert(out@ =~= spec_insns_bytes(v@.subrange(0, k as int)) + spec_insn_bytes(
                v@[k as int],
            ));
            lemma_insns_bytes_len(pre);
        }
        k = k + 1;
    }
    proof {
        assert(v@.subrange(0, v@.len() as int) =~= v@);
    }
    out
}

/// Each instruction contributes exactly eight wire bytes.
pub proof fn lemma_insns_bytes_len(v: Seq<Insn>)
    ensures
        spec_insns_bytes(v).len() == 8 * v.len(),
    decreases v.len(),
{
    if v.len() > 0 {
        lemma_insns_bytes_len(v.drop_last());
    }
}

/// Re-encoding one decoded instruction reproduces its eight wire
/// bytes.
proof fn lemma_insn_bytes_inverse(b: Seq<u8>, i: int)
    requires
        0 <= i,
        i + 8 <= b.len(),
    ensures
        spec_insn_bytes(spec_insn(b, i)) =~= b.subrange(i, i + 8),
{
    let x = spec_insn(b, i);
    let rb = b[i + 1];
    let dst = x.dst_reg;
    let src = x.src_reg;
    assert((dst | src << 4) == rb) by (bit_vector)
        requires
            dst == rb & 0xf,
            src == rb >> 4,
    ;

    let lo = b[i + 2];
    let hi = b[i + 3];
    let o = x.off;
    assert(o == lo as u16 + hi as u16 * 0x100);
    assert((o & 0xff) as u8 == lo && (o >> 8) as u8 == hi) by (bit_vector)
        requires
            o == lo as u16 + hi as u16 * 0x100,
    ;

    let b4 = b[i + 4];
    let b5 = b[i + 5];
    let b6 = b[i + 6];
    let b7 = b[i + 7];
    let v = le32(b, i + 4) as u32;
    assert(v == b4 as u32 + b5 as u32 * 0x100 + b6 as u32 * 0x1_0000 + b7 as u32 * 0x100_0000);
    let u = x.imm as u32;
    assert(u == v) by (bit_vector)
        requires
            u == (v as i32) as u32,
    ;
    assert((u & 0xff) as u8 == b4 && ((u >> 8) & 0xff) as u8 == b5 && ((u >> 16) & 0xff) as u8 == b6
        && ((u >> 24) & 0xff) as u8 == b7) by (bit_vector)
        requires
            u == b4 as u32 + b5 as u32 * 0x100 + b6 as u32 * 0x1_0000 + b7 as u32 * 0x100_0000,
    ;
}

/// Re-encoding a whole decoded program section reproduces the
/// section's bytes: nothing is lost between the object file and what
/// is handed to the kernel verifier.
pub proof fn lemma_insns_roundtrip(b: Seq<u8>)
    requires
        b.len() % 8 == 0,
    ensures
        spec_insns_bytes(spec_insns(b)) == b,
{
    lemma_insns_roundtrip_upto(b, b.len() as int / 8);
    assert(spec_insns(b).take(b.len() as int / 8) =~= spec_insns(b));
    assert(b.subrange(0, b.len() as int) =~= b);
}

proof fn lemma_insns_roundtrip_upto(b: Seq<u8>, k: int)
    requires
        0 <= k,
        8 * k <= b.len(),
    ensures
        spec_insns_bytes(spec_insns(b).take(k)) =~= b.subrange(0, 8 * k),
    decreases k,
{
    if k > 0 {
        lemma_insns_roundtrip_upto(b, k - 1);
        let s = spec_insns(b).take(k);
        assert(s.drop_last() =~= spec_insns(b).take(k - 1));
        assert(s.last() == spec_insn(b, (k - 1) * 8));
        lemma_insn_bytes_inverse(b, (k - 1) * 8);
        assert(b.subrange(0, 8 * (k - 1)) + b.subrange((k - 1) * 8, (k - 1) * 8 + 8) =~= b.subrange(
            0,
            8 * k,
        ));
    }
}

} // verus!
