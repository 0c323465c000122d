//! Tear-down: releasing every kernel handle a module and its rings
//! acquired, in the one order the kernel tolerates — attachments first,
//! then programs, then rings, then maps — so that no verifier reference
//! outlives the map it points into.

use vstd::prelude::*;

use crate::map::KernelMap;
use crate::module::Module;
use crate::program::Program;

verus! {

/// The attachment handles of a program sequence, in order.
pub open spec fn attach_fds(ps: Seq<Program>) -> Seq<i32>
    decreases ps.len(),
{
    if ps.len() == 0 {
        Seq::empty()
    } else {
        attach_fds(ps.drop_last()) + match ps.last().pfd {
            Some(fd) => seq![fd],
            None => Seq::empty(),
        }
    }
}

/// The load handles of a program sequence, in order.
pub open spec fn prog_fds(ps: Seq<Program>) -> Seq<i32>
    decreases ps.len(),
{
    if ps.len() == 0 {
        Seq::empty()
    } else {
        prog_fds(ps.drop_last()) + match ps.last().fd {
            Some(fd) => seq![fd],
            None => Seq::empty(),
        }
    }
}

/// The map handles of a map sequence, in order.
pub open spec fn map_fds(ms: Seq<KernelMap>) -> Seq<i32>
    decreases ms.len(),
{
    if ms.len() == 0 {
        Seq::empty()
    } else {
        map_fds(ms.drop_last()) + match ms.last().fd {
            Some(fd) => seq![fd],
            None => Seq::empty(),
        }
    }
}

/// The kernel handles a tear-down must release, grouped by kind. The
/// ring descriptors come from the per-cpu readers; the rest from the
/// module.
pub struct CloseSet {
    pub attachments: Vec<i32>,
    pub programs: Vec<i32>,
    pub rings: Vec<i32>,
    pub maps: Vec<i32>,
}

impl Module {
    /// Takes every kernel handle out of the module: the attachment,
    /// program and map descriptors, each group in declaration order.
    /// Afterwards the module holds no handle, so a second call yields
    /// an empty set.
    pub fn close(&mut self) -> (cs: CloseSet)
        requires
            old(self).wf(),
        ensures
            final(self).wf(),
            cs.attachments@ == attach_fds(old(self).programs@),
            cs.programs@ == prog_fds(old(self).programs@),
            cs.rings@ == Seq::<i32>::empty(),
            cs.maps@ == map_fds(old(self).maps@),
            final(self).license@ == old(self).license@,
            final(self).version == old(self).version,
            final(self).rels@ == old(self).rels@,
            final(self).symtab@ == old(self).symtab@,
            final(self).programs@.len() == old(self).programs@.len(),
            forall|j: int| 0 <= j < final(self).programs@.len() ==> {
                let p0 = #[trigger] old(self).programs@[j];
                let p1 = final(self).programs@[j];
                &&& p1.pfd is None
                &&& p1.fd is None
                &&& p1.name@ == p0.name@
                &&& p1.kind == p0.kind
                &&& p1.code@ == p0.code@
                &&& p1.section_index == p0.section_index
            },
            final(self).maps@.len() == old(self).maps@.len(),
            forall|j: int| 0 <= j < final(self).maps@.len() ==> {
                let m0 = #[trigger] old(self).maps@[j];
                let m1 = final(self).maps@[j];
                &&& m1.fd is None
                &&& m1.name@ == m0.name@
                &&& m1.kind == m0.kind
                &&& m1.config == m0.config
                &&& m1.section_index == m0.section_index
            },
    {
        let ghost ps0 = self.programs@;
        let ghost ms0 = self.maps@;
        let mut attachments: Vec<i32> = Vec::new();
        let mut programs: Vec<i32> = Vec::new();
        let mut maps: Vec<i32> = Vec::new();

        let n = self.programs.len();
        let mut j: usize = 0;
        while j < n
            invariant
                old(self).wf(),
                ps0 == old(self).programs@,
                ms0 == old(self).maps@,
                self.maps@ == ms0,
                self.license@ == old(self).license@,
                self.version == old(self).version,
                self.rels@ == old(self).rels@,
                self.symtab@ == old(self).symtab@,
                n == ps0.len(),
                j <= n,
                self.programs@.len() == n,
                attachments@ == attach_fds(ps0.subrange(0, j as int)),
                programs@ == prog_fds(ps0.subrange(0, j as int)),
                forall|x: int| j <= x < n ==> self.programs@[x] == ps0[x],
                forall|x: int| 0 <= x < j ==> {
                    let p0 = #[trigger] ps0[x];
                    let p1 = self.programs@[x];
                    &&& p1.pfd is None
                    &&& p1.fd is None
                    &&& p1.name@ == p0.name@
                    &&& p1.kind == p0.kind
                    &&& p1.code@ == p0.code@
                    &&& p1.section_index == p0.section_index
                    &&& p1.wf()
                },
            decreases n - j,
        {
            match self.programs[j].pfd {
                Some(fd) => attachments.push(fd),
                None => {},
            }
            match self.programs[j].fd {
                Some(fd) => programs.push(fd),
                None => {},
            }
            self.programs[j].pfd = None;
            self.programs[j].fd = None;
            proof {
                let pre = ps0.subrange(0, j + 1 as int);
                assert(pre.drop_last() =~= ps0.subrange(0, j as int));
                assert(pre.last() == ps0[j as int]);
                assert(self.programs@[j as int].wf()) by {
                    assert(old(self).programs@[j as int].wf());
                }
            }
            j = j + 1;
        }
        proof {
            assert(ps0.subrange(0, n as int) =~= ps0);
        }

        let nm = self.maps.len();
        let mut j: usize = 0;
        while j < nm
            invariant
                old(self).wf(),
                ms0 == old(self).maps@,
                self.license@ == old(self).license@,
                self.version == old(self).version,
                self.rels@ == old(self).rels@,
                self.symtab@ == old(self).symtab@,
                nm == ms0.len(),
                j <= nm,
                self.maps@.len() == nm,
                maps@ == map_fds(ms0.subrange(0, j as int)),
                forall|x: int| j <= x < nm ==> self.maps@[x] == ms0[x],
                forall|x: int| 0 <= x < j ==> {
                    let m0 = #[trigger] ms0[x];
                    let m1 = self.maps@[x];
                    &&& m1.fd is None
                    &&& m1.name@ == m0.name@
                    &&& m1.kind == m0.kind
                    &&& m1.config == m0.config
                    &&& m1.section_index == m0.section_index
                    &&& m1.wf()
                },
                self.programs@.len() == ps0.len(),
                forall|x: int| 0 <= x < self.programs@.len() ==> {
                    let p0 = #[trigger] ps0[x];
                    let p1 = self.programs@[x];
                    &&& p1.pfd is None
                    &&& p1.fd is None
                    &&& p1.name@ == p0.name@
                    &&& p1.kind == p0.kind
                    &&& p1.code@ == p0.code@
                    &&& p1.section_index == p0.section_index
                    &&& p1.wf()
                },
            decreases nm - j,
        {
            match self.maps[j].fd {
                Some(fd) => maps.push(fd),
                None => {},
            }
            self.maps[j].fd = None;
            proof {
                let pre = ms0.subrange(0, j + 1 as int);
                assert(pre.drop_last() =~= ms0.subrange(0, j as int));
                assert(pre.last() == ms0[j as int]);
                assert(self.maps@[j as int].wf()) by {
                    assert(old(self).maps@[j as int].wf());
                }
            }
            j = j + 1;
        }
        proof {
            assert(ms0.subrange(0, nm as int) =~= ms0);
            assert forall|x: int| 0 <= x < self.programs@.len() implies (
            #[trigger] self.programs@[x]).wf() by {
                let p0 = ps0[x];
            }
            assert forall|x: int| 0 <= x < self.maps@.len() implies (#[trigger] self.maps@[x]).wf()
                by {
                let m0 = ms0[x];
            }
        }
        CloseSet { attachments, programs, rings: Vec::new(), maps }
    }
}

/// The one order a tear-down may release handles in: attachments, then
/// programs, then rings, then maps.
pub fn close_plan(cs: &CloseSet) -> (r: Vec<i32>)
    ensures
        r@ == cs.attachments@ + cs.programs@ + cs.rings@ + cs.maps@,
{
    let mut out: Vec<i32> = Vec::new();
    push_all(&mut out, &cs.attachments);
    push_all(&mut out, &cs.programs);
    push_all(&mut out, &cs.rings);
    push_all(&mut out, &cs.maps);
    proof {
        assert(out@ =~= cs.attachments@ + cs.programs@ + cs.rings@ + cs.maps@);
    }
    out
}

/// Appends a copy of every descriptor in `src` to `dst`.
fn push_all(dst: &mut Vec<i32>, src: &Vec<i32>)
    ensures
        final(dst)@ == old(dst)@ + src@,
{
    let n = src.len();
    let mut k: usize = 0;
    while k < n
        invariant
            k <= n,
            n == src@.len(),
            dst@ == old(dst)@ + src@.subrange(0, k as int),
        decreases n - k,
    {
        dst.push(src[k]);
        proof {
            assert(src@.subrange(0, k + 1 as int) =~= src@.subrange(0, k as int).push(
                src@[k as int],
            ));
            assert(dst@ =~= old(dst)@ + src@.subrange(0, k + 1 as int));
        }
        k = k + 1;
    }
    proof {
        assert(src@.subrange(0, n as int) =~= src@);
        assert(dst@ =~= old(dst)@ + src@);
    }
}

/// A module whose handles are all cleared — as [`Module::close`]
/// leaves it — yields only empty handle groups, so closing it a second
/// time releases nothing.
pub proof fn lemma_close_idempotent(ps: Seq<Program>, ms: Seq<KernelMap>)
    requires
        forall|j: int| 0 <= j < ps.len() ==> (#[trigger] ps[j]).pfd is None && ps[j].fd is None,
        forall|j: int| 0 <= j < ms.len() ==> (#[trigger] ms[j]).fd is None,
    ensures
        attach_fds(ps) == Seq::<i32>::empty(),
        prog_fds(ps) == Seq::<i32>::empty(),
        map_fds(ms) == Seq::<i32>::empty(),
    decreases ps.len() + ms.len(),
{
    if ps.len() > 0 {
        lemma_close_idempotent(ps.drop_last(), ms);
        assert(attach_fds(ps) =~= Seq::<i32>::empty());
        assert(prog_fds(ps) =~= Seq::<i32>::empty());
    } else if ms.len() > 0 {
        lemma_close_idempotent(ps, ms.drop_last());
        assert(map_fds(ms) =~= Seq::<i32>::empty());
    } else {
        assert(attach_fds(ps) =~= Seq::<i32>::empty());
        assert(prog_fds(ps) =~= Seq::<i32>::empty());
        assert(map_fds(ms) =~= Seq::<i32>::empty());
    }
}

} // verus!
