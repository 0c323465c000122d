//! Relocation application: patching each program's map-reference
//! instructions with the kernel handles of the maps they resolve to.
//!
//! The kernel verifier only accepts map references that carry a
//! materialized descriptor, so every map must hold its handle before
//! any relocation is applied.

use vstd::prelude::*;

use crate::error::LoadError;
use crate::insn::{Insn, PSEUDO_MAP_FD};
use crate::map::KernelMap;
use crate::module::{Module, Rel};
use crate::program::Program;

verus! {

/// The first program declared by section `sec`, searching from `j`;
/// -1 when none is.
pub open spec fn find_prog(ps: Seq<Program>, sec: usize, j: int) -> int
    decreases ps.len() - j,
{
    if j < 0 || j >= ps.len() {
        -1
    } else if ps[j].section_index == sec {
        j
    } else {
        find_prog(ps, sec, j + 1)
    }
}

/// The first map declared by section `sec`, searching from `j`; -1
/// when none is.
pub open spec fn find_map(ms: Seq<KernelMap>, sec: usize, j: int) -> int
    decreases ms.len() - j,
{
    if j < 0 || j >= ms.len() {
        -1
    } else if ms[j].section_index == sec {
        j
    } else {
        find_map(ms, sec, j + 1)
    }
}

pub proof fn lemma_find_prog_bounds(ps: Seq<Program>, sec: usize, j: int)
    requires
        0 <= j <= ps.len(),
    ensures
        find_prog(ps, sec, j) == -1 || (j <= find_prog(ps, sec, j) < ps.len()
            && ps[find_prog(ps, sec, j)].section_index == sec),
    decreases ps.len() - j,
{
    if j < ps.len() && ps[j].section_index != sec {
        lemma_find_prog_bounds(ps, sec, j + 1);
    }
}

pub proof fn lemma_find_map_bounds(ms: Seq<KernelMap>, sec: usize, j: int)
    requires
        0 <= j <= ms.len(),
    ensures
        find_map(ms, sec, j) == -1 || (j <= find_map(ms, sec, j) < ms.len()
            && ms[find_map(ms, sec, j)].section_index == sec),
    decreases ms.len() - j,
{
    if j < ms.len() && ms[j].section_index != sec {
        lemma_find_map_bounds(ms, sec, j + 1);
    }
}

/// The search only reads each program's declaring section, so two
/// program sequences that agree on those agree on the search.
pub proof fn lemma_find_prog_congruent(ps1: Seq<Program>, ps2: Seq<Program>, sec: usize, j: int)
    requires
        ps1.len() == ps2.len(),
        forall|x: int| 0 <= x < ps1.len() ==> (#[trigger] ps1[x]).section_index
            == ps2[x].section_index,
    ensures
        find_prog(ps1, sec, j) == find_prog(ps2, sec, j),
    decreases ps1.len() - j,
{
    if 0 <= j < ps1.len() && ps1[j].section_index != sec {
        lemma_find_prog_congruent(ps1, ps2, sec, j + 1);
    }
}

/// The map handle a relocation writes into the immediate field.
pub open spec fn fd_of(m: KernelMap) -> i32 {
    match m.fd {
        Some(fd) => fd,
        None => (-1) as i32,
    }
}

/// The program a relocation patches.
pub open spec fn rel_prog(r: Rel, ps: Seq<Program>) -> int {
    find_prog(ps, r.target, 0)
}

/// The instruction index a relocation patches.
pub open spec fn rel_insn(r: Rel) -> int {
    r.offset as int / 8
}

/// The map a relocation resolves to, through the symbol table.
pub open spec fn rel_map(r: Rel, ms: Seq<KernelMap>, symtab: Seq<u16>) -> int
    recommends
        r.sym < symtab.len(),
{
    find_map(ms, symtab[r.sym as int] as usize, 0)
}

/// A relocation resolves when its target program exists, its symbol is
/// in the table, the symbol's section declares a map, and the patched
/// instruction index is inside the program.
pub open spec fn rel_resolves(r: Rel, ps: Seq<Program>, ms: Seq<KernelMap>, symtab: Seq<u16>) -> bool {
    &&& rel_prog(r, ps) >= 0
    &&& r.sym < symtab.len()
    &&& rel_map(r, ms, symtab) >= 0
    &&& rel_insn(r) < ps[rel_prog(r, ps)].code@.len()
}

/// One instruction after its relocation is applied: the
/// pseudo-map-descriptor sentinel in the source register and the map
/// handle in the immediate field.
pub open spec fn patched_insn(x: Insn, fd: i32) -> Insn {
    Insn { src_reg: PSEUDO_MAP_FD, imm: fd, ..x }
}

/// Program `j`'s instructions after the first `upto` relocations.
pub open spec fn spec_patched_code(
    rels: Seq<Rel>,
    ps0: Seq<Program>,
    ms: Seq<KernelMap>,
    symtab: Seq<u16>,
    j: int,
    upto: int,
) -> Seq<Insn>
    decreases upto,
{
    if upto <= 0 {
        ps0[j].code@
    } else {
        let prev = spec_patched_code(rels, ps0, ms, symtab, j, upto - 1);
        let r = rels[upto - 1];
        if rel_prog(r, ps0) == j && 0 <= rel_insn(r) < prev.len() {
            prev.update(rel_insn(r), patched_insn(prev[rel_insn(r)], fd_of(ms[rel_map(r, ms, symtab)])))
        } else {
            prev
        }
    }
}

/// Patching never changes how many instructions a program has.
pub proof fn lemma_patched_code_len(
    rels: Seq<Rel>,
    ps0: Seq<Program>,
    ms: Seq<KernelMap>,
    symtab: Seq<u16>,
    j: int,
    upto: int,
)
    ensures
        spec_patched_code(rels, ps0, ms, symtab, j, upto).len() == ps0[j].code@.len(),
    decreases upto,
{
    if upto > 0 {
        lemma_patched_code_len(rels, ps0, ms, symtab, j, upto - 1);
    }
}

/// Finds the program a relocation targets.
fn find_prog_idx(ps: &Vec<Program>, sec: usize) -> (r: Option<usize>)
    ensures
        match r {
            Some(k) => find_prog(ps@, sec, 0) == k as int,
            None => find_prog(ps@, sec, 0) == -1,
        },
{
    let n = ps.len();
    let mut j: usize = 0;
    while j < n
        invariant
            j <= n,
            n == ps@.len(),
            find_prog(ps@, sec, 0) == find_prog(ps@, sec, j as int),
        decreases n - j,
    {
        if ps[j].section_index == sec {
            return Some(j);
        }
        j = j + 1;
    }
    None
}

/// Finds the map a section index declares.
fn find_map_idx(ms: &Vec<KernelMap>, sec: usize) -> (r: Option<usize>)
    ensures
        match r {
            Some(k) => find_map(ms@, sec, 0) == k as int,
            None => find_map(ms@, sec, 0) == -1,
        },
{
    let n = ms.len();
    let mut j: usize = 0;
    while j < n
        invariant
            j <= n,
            n == ms@.len(),
            find_map(ms@, sec, 0) == find_map(ms@, sec, j as int),
        decreases n - j,
    {
        if ms[j].section_index == sec {
            return Some(j);
        }
        j = j + 1;
    }
    None
}

impl Rel {
    /// Decides whether this relocation resolves against the given
    /// programs, maps and symbol table.
    pub fn resolves(&self, programs: &Vec<Program>, maps: &Vec<KernelMap>, symtab: &Vec<u16>) -> (r:
        bool)
        ensures
            r == rel_resolves(*self, programs@, maps@, symtab@),
    {
        let pj = match find_prog_idx(programs, self.target) {
            Some(k) => k,
            None => {
                return false;
            },
        };
        proof {
            lemma_find_prog_bounds(programs@, self.target, 0);
        }
        if !(self.sym < symtab.len()) {
            return false;
        }
        let msec = symtab[self.sym] as usize;
        if find_map_idx(maps, msec).is_none() {
            return false;
        }
        let idx = self.offset / 8;
        idx < programs[pj].code.len() as u64
    }

    /// Applies this relocation: writes the pseudo-map-descriptor
    /// sentinel and the resolved map's kernel handle into the targeted
    /// instruction. Fails with `Reloc`, changing nothing, when the
    /// target program or referent map is missing or the offset is out
    /// of range.
    pub fn apply(&self, programs: &mut Vec<Program>, maps: &Vec<KernelMap>, symtab: &Vec<u16>) -> (r:
        Result<(), LoadError>)
        requires
            forall|j: int| 0 <= j < old(programs)@.len() ==> (#[trigger] old(programs)@[j]).wf()
                && !old(programs)@[j].spec_is_loaded(),
            forall|j: int| 0 <= j < maps@.len() ==> (#[trigger] maps@[j]).wf()
                && maps@[j].spec_is_materialized(),
        ensures
            final(programs)@.len() == old(programs)@.len(),
            forall|j: int| 0 <= j < final(programs)@.len() ==> {
                let p0 = #[trigger] old(programs)@[j];
                let p1 = final(programs)@[j];
                &&& p1.wf()
                &&& !p1.spec_is_loaded()
                &&& p1.name@ == p0.name@
                &&& p1.kind == p0.kind
                &&& p1.section_index == p0.section_index
                &&& p1.fd == p0.fd
                &&& p1.pfd == p0.pfd
                &&& p1.code@.len() == p0.code@.len()
            },
            match r {
                Ok(()) => {
                    &&& rel_resolves(*self, old(programs)@, maps@, symtab@)
                    &&& {
                        let pj = rel_prog(*self, old(programs)@);
                        let fd = fd_of(maps@[rel_map(*self, maps@, symtab@)]);
                        &&& final(programs)@[pj].code@ == old(programs)@[pj].code@.update(
                            rel_insn(*self),
                            patched_insn(old(programs)@[pj].code@[rel_insn(*self)], fd),
                        )
                        &&& forall|j: int| 0 <= j < final(programs)@.len() && j != pj ==> (
                        #[trigger] final(programs)@[j]).code@ == old(programs)@[j].code@
                    }
                },
                Err(LoadError::Reloc) => {
                    &&& !rel_resolves(*self, old(programs)@, maps@, symtab@)
                    &&& final(programs)@ == old(programs)@
                },
                Err(_) => false,
            },
    {
        let pj = match find_prog_idx(programs, self.target) {
            Some(k) => k,
            None => {
                return Err(LoadError::Reloc);
            },
        };
        proof {
            lemma_find_prog_bounds(programs@, self.target, 0);
        }
        if !(self.sym < symtab.len()) {
            return Err(LoadError::Reloc);
        }
        let msec = symtab[self.sym] as usize;
        let mj = match find_map_idx(maps, msec) {
            Some(k) => k,
            None => {
                return Err(LoadError::Reloc);
            },
        };
        proof {
            lemma_find_map_bounds(maps@, msec, 0);
        }
        let idx64 = self.offset / 8;
        if !(idx64 < programs[pj].code.len() as u64) {
            return Err(LoadError::Reloc);
        }
        let idx = idx64 as usize;
        let fd = match maps[mj].fd {
            Some(fd) => fd,
            None => {
                return Err(LoadError::Reloc);  // unreachable: materialized by requires
            },
        };
        let insn0 = programs[pj].code[idx];
        let insn1 = Insn {
            code: insn0.code,
            dst_reg: insn0.dst_reg,
            src_reg: PSEUDO_MAP_FD,
            off: insn0.off,
            imm: fd,
        };
        let prog = &mut programs[pj];
        prog.code[idx] = insn1;
        proof {
            assert(insn1 == patched_insn(insn0, fd));
        }
        Ok(())
    }
}

impl Module {
    /// Applies every pending relocation, in the order the object
    /// declares them. Succeeds exactly when each one resolves; when one
    /// does not, the module is unchanged and the failure is fatal.
    /// Every map must already be materialized, and no program loaded.
    pub fn apply_relocations(&mut self) -> (r: Result<(), LoadError>)
        requires
            old(self).wf(),
            forall|j: int| 0 <= j < old(self).maps@.len() ==> (#[trigger] old(self).maps@[j])
                .spec_is_materialized(),
            forall|j: int| 0 <= j < old(self).programs@.len() ==> !(#[trigger] old(self).programs@[
                j
            ]).spec_is_loaded() && !old(self).programs@[j].spec_is_attached(),
        ensures
            final(self).wf(),
            final(self).maps@ == old(self).maps@,
            final(self).license@ == old(self).license@,
            final(self).version == old(self).version,
            final(self).rels@ == old(self).rels@,
            final(self).symtab@ == old(self).symtab@,
            final(self).programs@.len() == old(self).programs@.len(),
            forall|j: int| 0 <= j < final(self).programs@.len() ==> {
                let p0 = #[trigger] old(self).programs@[j];
                let p1 = final(self).programs@[j];
                &&& !p1.spec_is_loaded()
                &&& !p1.spec_is_attached()
                &&& p1.name@ == p0.name@
                &&& p1.kind == p0.kind
                &&& p1.section_index == p0.section_index
                &&& p1.code@.len() == p0.code@.len()
            },
            match r {
                Ok(()) => {
                    &&& forall|k: int| 0 <= k < old(self).rels@.len() ==> rel_resolves(
                        #[trigger] old(self).rels@[k],
                        old(self).programs@,
                        old(self).maps@,
                        old(self).symtab@,
                    )
                    &&& forall|j: int| 0 <= j < final(self).programs@.len() ==> (
                    #[trigger] final(self).programs@[j]).code@ == spec_patched_code(
                        old(self).rels@,
                        old(self).programs@,
                        old(self).maps@,
                        old(self).symtab@,
                        j,
                        old(self).rels@.len() as int,
                    )
                },
                Err(LoadError::Reloc) => {
                    &&& exists|k: int| 0 <= k < old(self).rels@.len() && !rel_resolves(
                        #[trigger] old(self).rels@[k],
                        old(self).programs@,
                        old(self).maps@,
                        old(self).symtab@,
                    )
                    &&& final(self).programs@ == old(self).programs@
                },
                Err(_) => false,
            },
    {
        let ghost ps0 = self.programs@;
        let ghost ms = self.maps@;
        let ghost stab = self.symtab@;
        let ghost rels = self.rels@;

        let n = self.rels.len();
        let mut k: usize = 0;
        while k < n
            invariant
                old(self).wf(),
                ps0 == old(self).programs@,
                ms == old(self).maps@,
                stab == old(self).symtab@,
                rels == old(self).rels@,
                forall|j: int| 0 <= j < ps0.len() ==> !(#[trigger] ps0[j]).spec_is_loaded() && !ps0[
                    j
                ].spec_is_attached(),
                n == self.rels@.len(),
                k <= n,
                self.rels@ == rels,
                self.programs@ == ps0,
                self.maps@ == ms,
                self.symtab@ == stab,
                self.license@ == old(self).license@,
                self.version == old(self).version,
                forall|x: int| 0 <= x < k ==> rel_resolves(#[trigger] rels[x], ps0, ms, stab),
            decreases n - k,
        {
            let rel = self.rels[k];
            if !rel.resolves(&self.programs, &self.maps, &self.symtab) {
                proof {
                    assert forall|j: int| 0 <= j < self.programs@.len() implies (
                    #[trigger] self.programs@[j]).wf() by {
                        assert(old(self).programs@[j].wf());
                    }
                    assert forall|j: int| 0 <= j < self.maps@.len() implies (
                    #[trigger] self.maps@[j]).wf() by {
                        assert(old(self).maps@[j].wf());
                    }
                }
                return Err(LoadError::Reloc);
            }
            k = k + 1;
        }

        let mut k: usize = 0;
        while k < n
            invariant
                old(self).wf(),
                ps0 == old(self).programs@,
                ms == old(self).maps@,
                stab == old(self).symtab@,
                rels == old(self).rels@,
                forall|j: int| 0 <= j < ms.len() ==> (#[trigger] ms[j]).wf() && ms[j]
                    .spec_is_materialized(),
                forall|j: int| 0 <= j < ps0.len() ==> (#[trigger] ps0[j]).wf() && !ps0[j]
                    .spec_is_loaded() && !ps0[j].spec_is_attached(),
                n == rels.len(),
                k <= n,
                self.rels@ == rels,
                self.maps@ == ms,
                self.symtab@ == stab,
                self.license@ == old(self).license@,
                self.version == old(self).version,
                forall|x: int| 0 <= x < n ==> rel_resolves(#[trigger] rels[x], ps0, ms, stab),
                self.programs@.len() == ps0.len(),
                forall|j: int| 0 <= j < self.programs@.len() ==> {
                    let p0 = #[trigger] ps0[j];
                    let p1 = self.programs@[j];
                    &&& p1.wf()
                    &&& !p1.spec_is_loaded()
                    &&& !p1.spec_is_attached()
                    &&& p1.name@ == p0.name@
                    &&& p1.kind == p0.kind
                    &&& p1.section_index == p0.section_index
                    &&& p1.fd == p0.fd
                    &&& p1.pfd == p0.pfd
                    &&& p1.code@ == spec_patched_code(rels, ps0, ms, stab, j, k as int)
                },
            decreases n - k,
        {
            let rel = self.rels[k];
            proof {
                lemma_find_prog_congruent(self.programs@, ps0, rel.target, 0);
                lemma_find_prog_bounds(ps0, rel.target, 0);
                lemma_patched_code_len(rels, ps0, ms, stab, rel_prog(rel, ps0), k as int);
                assert forall|j: int| 0 <= j < self.programs@.len() implies (
                #[trigger] self.programs@[j]).wf() && !self.programs@[j].spec_is_loaded() by {
                    let p0 = ps0[j];
                }
            }
            let res = rel.apply(&mut self.programs, &self.maps, &self.symtab);
            proof {
                assert(res is Ok);
            }
            proof {
                let pj = rel_prog(rel, ps0);
                assert forall|j: int| 0 <= j < self.programs@.len() implies (
                #[trigger] self.programs@[j]).code@ == spec_patched_code(
                    rels,
                    ps0,
                    ms,
                    stab,
                    j,
                    k + 1,
                ) by {
                    lemma_patched_code_len(rels, ps0, ms, stab, j, k as int);
                }
            }
            k = k + 1;
        }
        proof {
            assert forall|j: int| 0 <= j < self.programs@.len() implies {
                let p0 = #[trigger] old(self).programs@[j];
                let p1 = self.programs@[j];
                &&& p1.wf()
                &&& !p1.spec_is_loaded()
                &&& !p1.spec_is_attached()
                &&& p1.name@ == p0.name@
                &&& p1.kind == p0.kind
                &&& p1.section_index == p0.section_index
                &&& p1.code@.len() == p0.code@.len()
            } by {
                let p0 = ps0[j];
                lemma_patched_code_len(rels, ps0, ms, stab, j, n as int);
            }
            assert forall|j: int| 0 <= j < self.programs@.len() implies (
            #[trigger] self.programs@[j]).wf() by {
                let p0 = ps0[j];
            }
            assert forall|j: int| 0 <= j < self.maps@.len() implies (#[trigger] self.maps@[j]).wf()
                by {
                assert(ms[j].wf());
            }
        }
        Ok(())
    }
}

/// Every applied relocation leaves the sentinel in the source register
/// and the resolved map's kernel handle in the immediate field of the
/// instruction it names, provided no two relocations patch the same
/// instruction.
pub proof fn lemma_relocations_applied(
    rels: Seq<Rel>,
    ps0: Seq<Program>,
    ms: Seq<KernelMap>,
    symtab: Seq<u16>,
    k: int,
)
    requires
        forall|x: int| 0 <= x < rels.len() ==> rel_resolves(#[trigger] rels[x], ps0, ms, symtab),
        forall|x: int, y: int| 0 <= x < rels.len() && 0 <= y < rels.len() && x != y
            ==> rel_prog(#[trigger] rels[x], ps0) != rel_prog(#[trigger] rels[y], ps0) || rel_insn(
            rels[x],
        ) != rel_insn(rels[y]),
        0 <= k < rels.len(),
    ensures
        ({
            let code = spec_patched_code(rels, ps0, ms, symtab, rel_prog(rels[k], ps0), rels.len() as int);
            &&& code[rel_insn(rels[k])].src_reg == PSEUDO_MAP_FD
            &&& code[rel_insn(rels[k])].imm == fd_of(ms[rel_map(rels[k], ms, symtab)])
        }),
{
    lemma_relocations_applied_upto(rels, ps0, ms, symtab, k, rels.len() as int);
}

/// The patch made by relocation `k` survives every later relocation.
proof fn lemma_relocations_applied_upto(
    rels: Seq<Rel>,
    ps0: Seq<Program>,
    ms: Seq<KernelMap>,
    symtab: Seq<u16>,
    k: int,
    upto: int,
)
    requires
        forall|x: int| 0 <= x < rels.len() ==> rel_resolves(#[trigger] rels[x], ps0, ms, symtab),
        forall|x: int, y: int| 0 <= x < rels.len() && 0 <= y < rels.len() && x != y
            ==> rel_prog(#[trigger] rels[x], ps0) != rel_prog(#[trigger] rels[y], ps0) || rel_insn(
            rels[x],
        ) != rel_insn(rels[y]),
        0 <= k < upto <= rels.len(),
    ensures
        ({
            let code = spec_patched_code(rels, ps0, ms, symtab, rel_prog(rels[k], ps0), upto);
            &&& code[rel_insn(rels[k])].src_reg == PSEUDO_MAP_FD
            &&& code[rel_insn(rels[k])].imm == fd_of(ms[rel_map(rels[k], ms, symtab)])
        }),
    decreases upto,
{
    let pj = rel_prog(rels[k], ps0);
    lemma_patched_code_len(rels, ps0, ms, symtab, pj, upto - 1);
    if upto - 1 == k {
        lemma_find_prog_bounds(ps0, rels[k].target, 0);
    } else {
        lemma_relocations_applied_upto(rels, ps0, ms, symtab, k, upto - 1);
    }
}

} // verus!
