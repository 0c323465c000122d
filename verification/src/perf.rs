//! Per-cpu ring buffers: the single-consumer reader for the
//! variable-length record stream the kernel produces, the mapped-length
//! check that precedes the mapping call, and the plan that opens one
//! ring per ring-buffer map and online cpu.
//!
//! The data region is shared with the kernel; the caller snapshots the
//! region and the producer cursor, hands both in, and publishes the
//! consumer cursor this reader returns. Between the snapshot's cursors
//! `0 <= head - tail <= data_size` holds throughout.

use vstd::prelude::*;

use crate::error::LoadError;
use crate::map::{KernelMap, MAP_TYPE_PERF_EVENT_ARRAY};
use crate::wire::{le16, le32, le64, read_u16, read_u32, read_u64};

verus! {

/// Record type: the kernel dropped records and reports how many.
pub const PERF_RECORD_LOST: u32 = 2;

/// Record type: one sample carrying a program-emitted payload.
pub const PERF_RECORD_SAMPLE: u32 = 9;

/// A byte of the data region, addressed by an absolute position that
/// wraps modulo the region size.
pub open spec fn ring_byte(data: Seq<u8>, pos: int) -> u8
    recommends
        data.len() > 0,
        pos >= 0,
{
    data[pos % (data.len() as int)]
}

/// The `len` logical bytes starting at absolute position `pos`,
/// reassembled through the wrap.
pub open spec fn ring_bytes(data: Seq<u8>, pos: int, len: int) -> Seq<u8>
    recommends
        data.len() > 0,
        pos >= 0,
        len >= 0,
{
    Seq::new(len as nat, |i: int| ring_byte(data, pos + i))
}

/// One decoded record, as the specification model sees it.
pub ghost enum SpecEvent {
    /// A sample's payload: the record's bytes after the header.
    Sample(Seq<u8>),
    /// The count of records the kernel reports dropped.
    Lost(u64),
}

/// The records between the consumer and producer cursors, in the order
/// the kernel wrote them. A header that does not fit, a size below the
/// header size, or a record reaching past the producer cursor is
/// malformed and ends the decode; record types other than sample and
/// lost are skipped.
pub open spec fn records(data: Seq<u8>, tail: int, head: int) -> Seq<SpecEvent>
    recommends
        data.len() > 0,
        0 <= tail <= head,
    decreases head - tail,
{
    if head - tail < 8 {
        Seq::empty()
    } else {
        let hdr = ring_bytes(data, tail, 8);
        let sz = le16(hdr, 6);
        if sz < 8 || tail + sz > head {
            Seq::empty()
        } else {
            let ty = le32(hdr, 0);
            let ev: Seq<SpecEvent> = if ty == PERF_RECORD_SAMPLE {
                seq![SpecEvent::Sample(ring_bytes(data, tail + 8, sz - 8))]
            } else if ty == PERF_RECORD_LOST && sz >= 24 {
                seq![SpecEvent::Lost(le64(ring_bytes(data, tail + 16, 8), 0) as u64)]
            } else {
                Seq::empty()
            };
            ev + records(data, tail + sz, head)
        }
    }
}

/// The total count of dropped records a record sequence reports.
pub open spec fn lost_total(evs: Seq<SpecEvent>) -> int
    decreases evs.len(),
{
    if evs.len() == 0 {
        0
    } else {
        lost_total(evs.drop_last()) + match evs.last() {
            SpecEvent::Lost(c) => c as int,
            _ => 0,
        }
    }
}

pub proof fn lemma_lost_total_nonneg(evs: Seq<SpecEvent>)
    ensures
        lost_total(evs) >= 0,
    decreases evs.len(),
{
    if evs.len() > 0 {
        lemma_lost_total_nonneg(evs.drop_last());
    }
}

pub proof fn lemma_lost_total_concat(a: Seq<SpecEvent>, b: Seq<SpecEvent>)
    ensures
        lost_total(a + b) == lost_total(a) + lost_total(b),
    decreases b.len(),
{
    if b.len() == 0 {
        assert(a + b =~= a);
    } else {
        lemma_lost_total_concat(a, b.drop_last());
        assert((a + b).drop_last() =~= a + b.drop_last());
        assert((a + b).last() == b.last());
    }
}

/// One decoded record, as the reader delivers it.
pub enum RingEvent {
    /// A sample's payload, reassembled through the wrap when needed.
    Sample(Vec<u8>),
    /// The count of records the kernel reports dropped.
    Lost(u64),
}

pub open spec fn event_matches(e: RingEvent, s: SpecEvent) -> bool {
    match e {
        RingEvent::Sample(v) => s matches SpecEvent::Sample(b) && v@ == b,
        RingEvent::Lost(c) => s == SpecEvent::Lost(c),
    }
}

pub open spec fn events_match(es: Seq<RingEvent>, ss: Seq<SpecEvent>) -> bool {
    es.len() == ss.len() && forall|i: int| 0 <= i < es.len() ==> event_matches(
        #[trigger] es[i],
        ss[i],
    )
}

/// Copies `len` logical bytes out of the ring, reassembling them
/// through the wrap into one contiguous buffer.
fn read_ring(data: &[u8], pos: u64, len: usize) -> (r: Vec<u8>)
    requires
        data@.len() > 0,
        pos + len <= u64::MAX,
    ensures
        r@ == ring_bytes(data@, pos as int, len as int),
{
    let dlen = data.len() as u64;
    let mut out: Vec<u8> = Vec::new();
    let mut i: usize = 0;
    while i < len
        invariant
            data@.len() > 0,
            dlen == data@.len(),
            pos + len <= u64::MAX,
            i <= len,
            out@ == ring_bytes(data@, pos as int, i as int),
        decreases len - i,
    {
        let idx = ((pos + i as u64) % dlen) as usize;
        out.push(data[idx]);
        proof {
            assert(out@ =~= ring_bytes(data@, pos as int, i + 1 as int));
        }
        i = i + 1;
    }
    out
}

/// The single-consumer reader of one per-cpu ring.
///
/// The kernel is the only producer; this reader owns the consumer
/// cursor and the counter of records the kernel reported dropped.
pub struct PerfMap {
    /// Size of the mapped data region in bytes.
    pub data_size: usize,
    /// Consumer cursor: an absolute byte position, only growing.
    pub tail: u64,
    /// Running total of dropped records the kernel has reported.
    pub lost: u64,
}

impl PerfMap {
    pub open spec fn wf(self) -> bool {
        self.data_size > 0
    }

    /// Builds the reader for a freshly mapped ring, whose region holds
    /// `page_count` data pages of `page_size` bytes, and tells the
    /// caller how many bytes to map (one header page plus the data
    /// region). A `page_count` that is not a power of two is rejected
    /// here, before anything is mapped.
    pub fn bind(page_size: usize, page_count: usize) -> (r: Result<(PerfMap, usize), LoadError>)
        requires
            page_size > 0,
            page_size * (page_count + 1) <= usize::MAX,
        ensures
            match r {
                Ok((pm, len)) => {
                    &&& is_power_of_two(page_count as int)
                    &&& len == page_size * (page_count + 1)
                    &&& pm.wf()
                    &&& pm.data_size == page_size * page_count
                    &&& pm.tail == 0
                    &&& pm.lost == 0
                },
                Err(LoadError::OsIntrospection(_)) => !is_power_of_two(page_count as int),
                Err(_) => false,
            },
    {
        if !check_power_of_two(page_count) {
            return Err(LoadError::OsIntrospection(String::new()));
        }
        proof {
            lemma_power_of_two_pos(page_count as int);
            assert(page_size * page_count >= 1 && page_size * page_count <= page_size * (page_count
                + 1)) by (nonlinear_arith)
                requires
                    page_size >= 1,
                    page_count >= 1,
            ;
        }
        let data_size = page_size * page_count;
        Ok((PerfMap { data_size, tail: 0, lost: 0 }, page_size * (page_count + 1)))
    }

    /// Drains every whole record between the consumer cursor and the
    /// snapshot's producer cursor `head`, delivering them in write
    /// order, and advances the cursor to `head`. The caller must have
    /// snapshotted a consistent region: the cursors never lie more than
    /// the region size apart. Lost-record counts accumulate in `lost`,
    /// saturating only beyond the counter's range.
    pub fn drain(&mut self, data: &[u8], head: u64) -> (events: Vec<RingEvent>)
        requires
            old(self).wf(),
            data@.len() == old(self).data_size,
            old(self).tail <= head,
            head - old(self).tail <= old(self).data_size,
        ensures
            final(self).wf(),
            final(self).data_size == old(self).data_size,
            final(self).tail == head,
            events_match(events@, records(data@, old(self).tail as int, head as int)),
            final(self).lost >= old(self).lost,
            old(self).lost + lost_total(records(data@, old(self).tail as int, head as int))
                <= u64::MAX ==> final(self).lost == old(self).lost + lost_total(
                records(data@, old(self).tail as int, head as int),
            ),
    {
        let ghost tail0 = self.tail;
        let ghost lost0 = self.lost;
        let ghost full = records(data@, tail0 as int, head as int);
        let mut events: Vec<RingEvent> = Vec::new();
        let mut cursor: u64 = self.tail;
        let ghost mut done: Seq<SpecEvent> = Seq::empty();
        let mut stop = false;
        while !stop && head - cursor >= 8
            invariant
                self.data_size == old(self).data_size,
                self.data_size > 0,
                data@.len() == self.data_size,
                self.tail == tail0,
                tail0 <= cursor <= head,
                stop ==> cursor == head,
                full == records(data@, tail0 as int, head as int),
                full == done + records(data@, cursor as int, head as int),
                events_match(events@, done),
                lost0 == old(self).lost,
                self.lost >= lost0,
                lost0 + lost_total(full) <= u64::MAX ==> self.lost == lost0 + lost_total(done),
            decreases head - cursor, (if stop { 0int } else { 1int }),
        {
            let ghost rest = records(data@, cursor as int, head as int);
            let hdr = read_ring(data, cursor, 8);
            let sz16 = read_u16(hdr.as_slice(), 6);
            let ty = read_u32(hdr.as_slice(), 0);
            let sz = sz16 as u64;
            if sz16 < 8 || sz > head - cursor {
                proof {
                    assert(rest =~= Seq::<SpecEvent>::empty());
                    assert(full =~= done);
                }
                cursor = head;
                stop = true;
            } else {
                let ghost rest_next = records(data@, cursor + sz, head as int);
                if ty == PERF_RECORD_SAMPLE {
                    let payload = read_ring(data, cursor + 8, (sz16 - 8) as usize);
                    events.push(RingEvent::Sample(payload));
                    proof {
                        let ev = SpecEvent::Sample(ring_bytes(data@, cursor + 8, sz - 8));
                        assert(rest =~= seq![ev] + rest_next);
                        assert(full =~= (done + seq![ev]) + rest_next) by {
                            assert(done + (seq![ev] + rest_next) =~= (done + seq![ev]) + rest_next);
                        }
                        lemma_lost_total_concat(done, seq![ev]);
                        assert(lost_total(seq![ev]) == 0) by {
                            assert(seq![ev].drop_last() =~= Seq::<SpecEvent>::empty());
                            assert(lost_total(Seq::<SpecEvent>::empty()) == 0);
                        }
                        done = done + seq![ev];
                        assert(events_match(events@, done));
                    }
                } else if ty == PERF_RECORD_LOST && sz16 >= 24 {
                    let cb = read_ring(data, cursor + 16, 8);
                    let c = read_u64(cb.as_slice(), 0);
                    events.push(RingEvent::Lost(c));
                    proof {
                        let ev = SpecEvent::Lost(c);
                        assert(rest =~= seq![ev] + rest_next);
                        assert(full =~= (done + seq![ev]) + rest_next) by {
                            assert(done + (seq![ev] + rest_next) =~= (done + seq![ev]) + rest_next);
                        }
                        lemma_lost_total_concat(done, seq![ev]);
                        assert(lost_total(seq![ev]) == c) by {
                            assert(seq![ev].drop_last() =~= Seq::<SpecEvent>::empty());
                            assert(lost_total(Seq::<SpecEvent>::empty()) == 0);
                        }
                        if lost0 + lost_total(full) <= u64::MAX {
                            lemma_lost_total_concat(done + seq![ev], rest_next);
                            lemma_lost_total_nonneg(rest_next);
                            lemma_lost_total_nonneg(done);
                        }
                        done = done + seq![ev];
                        assert(events_match(events@, done));
                    }
                    if c > u64::MAX - self.lost {
                        self.lost = u64::MAX;
                    } else {
                        self.lost = self.lost + c;
                    }
                } else {
                    proof {
                        assert(rest =~= rest_next);
                        assert(full =~= done + rest_next);
                    }
                }
                cursor = cursor + sz;
            }
        }
        if cursor < head {
            proof {
                assert(records(data@, cursor as int, head as int) =~= Seq::<SpecEvent>::empty());
                assert(full =~= done);
            }
            cursor = head;
        }
        self.tail = head;
        proof {
            assert(records(data@, head as int, head as int) =~= Seq::<SpecEvent>::empty());
            assert(full =~= done);
        }
        events
    }
}

/// A window of one ring shares every sub-window with an equal window
/// of another.
proof fn lemma_window_sub(
    data1: Seq<u8>,
    pos1: int,
    data2: Seq<u8>,
    pos2: int,
    n: int,
    off: int,
    len: int,
)
    requires
        data1.len() > 0,
        data2.len() > 0,
        pos1 >= 0,
        pos2 >= 0,
        0 <= off,
        0 <= len,
        off + len <= n,
        ring_bytes(data1, pos1, n) == ring_bytes(data2, pos2, n),
    ensures
        ring_bytes(data1, pos1 + off, len) == ring_bytes(data2, pos2 + off, len),
{
    assert forall|i: int| 0 <= i < len implies #[trigger] ring_bytes(data1, pos1 + off, len)[i]
        == ring_bytes(data2, pos2 + off, len)[i] by {
        assert(ring_bytes(data1, pos1, n)[off + i] == ring_byte(data1, pos1 + off + i));
        assert(ring_bytes(data2, pos2, n)[off + i] == ring_byte(data2, pos2 + off + i));
    }
    assert(ring_bytes(data1, pos1 + off, len) =~= ring_bytes(data2, pos2 + off, len));
}

/// Decoding reads the ring only through its logical byte sequence: two
/// rings whose windows spell the same bytes decode to the same records.
/// In particular a record that straddles the wrap decodes exactly as
/// the same bytes laid out contiguously in a ring where it does not.
pub proof fn lemma_wrap_transparent(
    data1: Seq<u8>,
    pos1: int,
    head1: int,
    data2: Seq<u8>,
    pos2: int,
    head2: int,
)
    requires
        data1.len() > 0,
        data2.len() > 0,
        0 <= pos1 <= head1,
        0 <= pos2 <= head2,
        head1 - pos1 == head2 - pos2,
        ring_bytes(data1, pos1, head1 - pos1) == ring_bytes(data2, pos2, head2 - pos2),
    ensures
        records(data1, pos1, head1) == records(data2, pos2, head2),
    decreases head1 - pos1,
{
    let n = head1 - pos1;
    if n >= 8 {
        lemma_window_sub(data1, pos1, data2, pos2, n, 0, 8);
        let hdr = ring_bytes(data1, pos1, 8);
        let sz = le16(hdr, 6);
        if sz >= 8 && pos1 + sz <= head1 {
            let ty = le32(hdr, 0);
            if ty == PERF_RECORD_SAMPLE {
                lemma_window_sub(data1, pos1, data2, pos2, n, 8, sz - 8);
            }
            if ty == PERF_RECORD_LOST && sz >= 24 {
                lemma_window_sub(data1, pos1, data2, pos2, n, 16, 8);
            }
            lemma_window_sub(data1, pos1, data2, pos2, n, sz, n - sz);
            lemma_wrap_transparent(data1, pos1 + sz, head1, data2, pos2 + sz, head2);
        }
    }
}

/// True exactly for 1, 2, 4, 8, ...
pub open spec fn is_power_of_two(n: int) -> bool
    decreases n,
{
    if n <= 0 {
        false
    } else if n == 1 {
        true
    } else {
        n % 2 == 0 && is_power_of_two(n / 2)
    }
}

pub proof fn lemma_power_of_two_pos(n: int)
    requires
        is_power_of_two(n),
    ensures
        n >= 1,
{
}

/// Decides whether `n` is a power of two.
pub fn check_power_of_two(n: usize) -> (r: bool)
    ensures
        r == is_power_of_two(n as int),
{
    if n == 0 {
        return false;
    }
    let mut m = n;
    while m > 1
        invariant
            m >= 1,
            is_power_of_two(n as int) == is_power_of_two(m as int),
        decreases m,
    {
        if m % 2 != 0 {
            return false;
        }
        m = m / 2;
    }
    true
}

/// One planned ring: the index of a ring-buffer map and the cpu whose
/// emissions it will carry; the kernel directs cpu `c`'s records to the
/// ring registered under key `c`.
pub open spec fn cpu_pairs(j: usize, cpus: Seq<u32>) -> Seq<(usize, u32)>
    decreases cpus.len(),
{
    if cpus.len() == 0 {
        Seq::empty()
    } else {
        cpu_pairs(j, cpus.drop_last()) + seq![(j, cpus.last())]
    }
}

/// The rings to open for the first `k` maps: one per ring-buffer map
/// and online cpu, maps outermost, cpus in order.
pub open spec fn plan_upto(ms: Seq<KernelMap>, cpus: Seq<u32>, k: int) -> Seq<(usize, u32)>
    decreases k,
{
    if k <= 0 {
        Seq::empty()
    } else {
        plan_upto(ms, cpus, k - 1) + (if ms[k - 1].kind == MAP_TYPE_PERF_EVENT_ARRAY {
            cpu_pairs((k - 1) as usize, cpus)
        } else {
            Seq::empty()
        })
    }
}

/// Plans the rings to open: for every ring-buffer map, one ring per
/// online cpu, registered under that cpu's id.
pub fn bind_plan(maps: &Vec<KernelMap>, cpus: &Vec<u32>) -> (r: Vec<(usize, u32)>)
    ensures
        r@ == plan_upto(maps@, cpus@, maps@.len() as int),
{
    let mut out: Vec<(usize, u32)> = Vec::new();
    let mut j: usize = 0;
    while j < maps.len()
        invariant
            j <= maps@.len(),
            out@ == plan_upto(maps@, cpus@, j as int),
        decreases maps@.len() - j,
    {
        if maps[j].kind == MAP_TYPE_PERF_EVENT_ARRAY {
            let ghost out0 = out@;
            let mut c: usize = 0;
            while c < cpus.len()
                invariant
                    j < maps@.len(),
                    c <= cpus@.len(),
                    out@ == out0 + cpu_pairs(j, cpus@.subrange(0, c as int)),
                decreases cpus@.len() - c,
            {
                out.push((j, cpus[c]));
                proof {
                    let pre = cpus@.subrange(0, c + 1 as int);
                    assert(pre.drop_last() =~= cpus@.subrange(0, c as int));
                    assert(out@ =~= out0 + cpu_pairs(j, pre));
                }
                c = c + 1;
            }
            proof {
                assert(cpus@.subrange(0, cpus@.len() as int) =~= cpus@);
            }
        }
        j = j + 1;
    }
    out
}

/// How many of the first `k` maps are ring-buffer maps.
pub open spec fn perf_map_count(ms: Seq<KernelMap>, k: int) -> int
    decreases k,
{
    if k <= 0 {
        0
    } else {
        perf_map_count(ms, k - 1) + if ms[k - 1].kind == MAP_TYPE_PERF_EVENT_ARRAY {
            1int
        } else {
            0int
        }
    }
}

/// The plan opens exactly one ring per ring-buffer map and online cpu.
pub proof fn lemma_bind_plan_len(ms: Seq<KernelMap>, cpus: Seq<u32>, k: int)
    ensures
        plan_upto(ms, cpus, k).len() == perf_map_count(ms, k) * cpus.len(),
    decreases k,
{
    if k > 0 {
        lemma_bind_plan_len(ms, cpus, k - 1);
        lemma_cpu_pairs_len((k - 1) as usize, cpus);
        assert((perf_map_count(ms, k - 1) + 1) * cpus.len() == perf_map_count(ms, k - 1)
            * cpus.len() + cpus.len()) by (nonlinear_arith);
    }
}

proof fn lemma_cpu_pairs_len(j: usize, cpus: Seq<u32>)
    ensures
        cpu_pairs(j, cpus).len() == cpus.len(),
    decreases cpus.len(),
{
    if cpus.len() > 0 {
        lemma_cpu_pairs_len(j, cpus.drop_last());
    }
}

} // verus!
