//! Cpu topology: decoding the OS-exposed list of online logical cpus, a
//! comma-separated list of numbers and inclusive ranges such as
//! `0-3,5,7-9`.

use vstd::prelude::*;

use crate::error::LoadError;
use crate::wire::{all_digits, byte_pos, dec_val, find_byte, lemma_byte_pos_bounds, parse_u32_dec};

verus! {

/// The inclusive range of cpu ids from `lo` to `hi`.
pub open spec fn range_seq(lo: int, hi: int) -> Seq<u32>
    recommends
        0 <= lo <= hi <= u32::MAX,
{
    Seq::new((hi - lo + 1) as nat, |i: int| (lo + i) as u32)
}

/// The cpu ids one list segment names: a single number, or an
/// inclusive `lo-hi` range with `lo <= hi`. Anything else is
/// malformed.
pub open spec fn seg_cpus(seg: Seq<u8>) -> Option<Seq<u32>> {
    let dash = byte_pos(seg, 0, 0x2d);
    if dash == seg.len() {
        if seg.len() > 0 && all_digits(seg) && dec_val(seg) <= u32::MAX {
            Some(seq![dec_val(seg) as u32])
        } else {
            None
        }
    } else {
        let lo = seg.subrange(0, dash);
        let hi = seg.subrange(dash + 1, seg.len() as int);
        if lo.len() > 0 && all_digits(lo) && dec_val(lo) <= u32::MAX && hi.len() > 0 && all_digits(
            hi,
        ) && dec_val(hi) <= u32::MAX && dec_val(lo) <= dec_val(hi) {
            Some(range_seq(dec_val(lo), dec_val(hi)))
        } else {
            None
        }
    }
}

/// The cpu ids the whole list names from position `i` on, segment by
/// segment; nothing when any segment is malformed.
pub open spec fn cpu_list(b: Seq<u8>, i: int) -> Option<Seq<u32>>
    recommends
        0 <= i <= b.len(),
    decreases b.len() - i,
    via cpu_list_decreases
{
    let c = byte_pos(b, i, 0x2c);
    let seg = b.subrange(i, c);
    match seg_cpus(seg) {
        None => None,
        Some(v) => if c == b.len() {
            Some(v)
        } else {
            match cpu_list(b, c + 1) {
                None => None,
                Some(rest) => Some(v + rest),
            }
        },
    }
}

#[via_fn]
proof fn cpu_list_decreases(b: Seq<u8>, i: int) {
    if 0 <= i && i <= b.len() {
        lemma_byte_pos_bounds(b, i, 0x2c);
    }
}

/// Expands one `lo..=hi` range.
fn push_range(out: &mut Vec<u32>, lo: u32, hi: u32)
    requires
        lo <= hi,
    ensures
        final(out)@ == old(out)@ + range_seq(lo as int, hi as int),
{
    let mut c = lo;
    let mut done = false;
    while !done
        invariant
            lo <= c <= hi,
            done ==> c == hi,
            out@ == old(out)@ + range_seq(lo as int, c as int).drop_last() + (if done {
                seq![c]
            } else {
                Seq::<u32>::empty()
            }),
        decreases hi - c, (if done { 0int } else { 1int }),
    {
        out.push(c);
        proof {
            assert(range_seq(lo as int, c as int).drop_last().push(c) =~= range_seq(
                lo as int,
                c as int,
            ));
            assert(range_seq(lo as int, c + 1 as int).drop_last() =~= range_seq(lo as int, c as int));
            assert(out@ =~= old(out)@ + range_seq(lo as int, c as int));
        }
        if c == hi {
            done = true;
        } else {
            c = c + 1;
        }
    }
    proof {
        assert(out@ =~= old(out)@ + range_seq(lo as int, hi as int));
    }
}

/// Decodes the online-cpu list: the ordered cpu ids it names, or an
/// `OsIntrospection` failure on any malformed segment.
pub fn parse_cpu_list(b: &[u8]) -> (r: Result<Vec<u32>, LoadError>)
    ensures
        match r {
            Ok(v) => cpu_list(b@, 0) == Some(v@),
            Err(LoadError::OsIntrospection(_)) => cpu_list(b@, 0) is None,
            Err(_) => false,
        },
{
    let n = b.len();
    let mut out: Vec<u32> = Vec::new();
    let mut i: usize = 0;
    loop
        invariant
            i <= n,
            n == b@.len(),
            match cpu_list(b@, i as int) {
                None => cpu_list(b@, 0) is None,
                Some(rest) => cpu_list(b@, 0) == Some(out@ + rest),
            },
        decreases n - i,
    {
        let c = find_byte(b, i, 0x2c);
        proof {
            lemma_byte_pos_bounds(b@, i as int, 0x2c);
        }
        let seg = vstd::slice::slice_subrange(b, i, c);
        let dash = find_byte(seg, 0, 0x2d);
        proof {
            lemma_byte_pos_bounds(seg@, 0, 0x2d);
        }
        let ghost out_pre = out@;
        if dash == seg.len() {
            let v = match parse_u32_dec(seg) {
                Some(v) => v,
                None => {
                    return Err(LoadError::OsIntrospection(String::new()));
                },
            };
            out.push(v);
            proof {
                assert(seg_cpus(seg@) == Some(seq![v]));
                assert(out@ =~= out_pre + seq![v]);
            }
        } else {
            let lo_s = vstd::slice::slice_subrange(seg, 0, dash);
            let hi_s = vstd::slice::slice_subrange(seg, dash + 1, seg.len());
            let lo = match parse_u32_dec(lo_s) {
                Some(v) => v,
                None => {
                    return Err(LoadError::OsIntrospection(String::new()));
                },
            };
            let hi = match parse_u32_dec(hi_s) {
                Some(v) => v,
                None => {
                    return Err(LoadError::OsIntrospection(String::new()));
                },
            };
            if lo > hi {
                return Err(LoadError::OsIntrospection(String::new()));
            }
            push_range(&mut out, lo, hi);
            proof {
                assert(seg_cpus(seg@) == Some(range_seq(lo as int, hi as int)));
            }
        }
        if c == n {
            proof {
                assert(out@ =~= out_pre + seg_cpus(seg@).unwrap());
            }
            return Ok(out);
        }
        proof {
            assert(out@ =~= out_pre + seg_cpus(seg@).unwrap());
            if cpu_list(b@, c + 1) is Some {
                let rest = cpu_list(b@, c + 1).unwrap();
                assert((out_pre + seg_cpus(seg@).unwrap()) + rest =~= out_pre + (seg_cpus(
                    seg@,
                ).unwrap() + rest));
            }
        }
        i = c + 1;
    }
}

} // verus!
