//! Little-endian field readers and small byte-sequence helpers that the
//! object parser and the ring decoder share.

use vstd::prelude::*;
use vstd::string::StringSliceAdditionalSpecFns;

verus! {

/// The 16-bit little-endian value stored at `b[i..i+2]`.
pub open spec fn le16(b: Seq<u8>, i: int) -> int
    recommends
        0 <= i,
        i + 2 <= b.len(),
{
    b[i] + b[i + 1] * 0x100
}

/// The 32-bit little-endian value stored at `b[i..i+4]`.
pub open spec fn le32(b: Seq<u8>, i: int) -> int
    recommends
        0 <= i,
        i + 4 <= b.len(),
{
    b[i] + b[i + 1] * 0x100 + b[i + 2] * 0x1_0000 + b[i + 3] * 0x100_0000
}

/// The 64-bit little-endian value stored at `b[i..i+8]`.
pub open spec fn le64(b: Seq<u8>, i: int) -> int
    recommends
        0 <= i,
        i + 8 <= b.len(),
{
    le32(b, i) + le32(b, i + 4) * 0x1_0000_0000
}

pub fn read_u16(b: &[u8], off: usize) -> (r: u16)
    requires
        off + 2 <= b@.len(),
    ensures
        r == le16(b@, off as int),
{
    b[off] as u16 + b[off + 1] as u16 * 0x100
}

pub fn read_u32(b: &[u8], off: usize) -> (r: u32)
    requires
        off + 4 <= b@.len(),
    ensures
        r == le32(b@, off as int),
{
    b[off] as u32 + b[off + 1] as u32 * 0x100 + b[off + 2] as u32 * 0x1_0000 + b[off
        + 3] as u32 * 0x100_0000
}

pub fn read_u64(b: &[u8], off: usize) -> (r: u64)
    requires
        off + 8 <= b@.len(),
    ensures
        r == le64(b@, off as int),
{
    let n = b.len();
    let lo = read_u32(b, off);
    let hi = read_u32(b, off + 4);
    lo as u64 + hi as u64 * 0x1_0000_0000
}

/// True when the two byte sequences are equal.
pub fn bytes_eq(a: &[u8], b: &[u8]) -> (r: bool)
    ensures
        r == (a@ =~= b@),
{
    if a.len() != b.len() {
        return false;
    }
    let n = a.len();
    let mut i: usize = 0;
    while i < n
        invariant
            n == a@.len() == b@.len(),
            i <= n,
            forall|j: int| 0 <= j < i ==> a@[j] == b@[j],
        decreases n - i,
    {
        if a[i] != b[i] {
            return false;
        }
        i = i + 1;
    }
    true
}

/// The index of the first occurrence of `x` at or after `i`, or the
/// sequence's length when `x` does not follow.
pub open spec fn byte_pos(b: Seq<u8>, i: int, x: u8) -> int
    decreases b.len() - i,
{
    if i < 0 || i >= b.len() {
        b.len() as int
    } else if b[i] == x {
        i
    } else {
        byte_pos(b, i + 1, x)
    }
}

pub proof fn lemma_byte_pos_bounds(b: Seq<u8>, i: int, x: u8)
    requires
        0 <= i <= b.len(),
    ensures
        i <= byte_pos(b, i, x) <= b.len(),
        byte_pos(b, i, x) < b.len() ==> b[byte_pos(b, i, x)] == x,
        forall|j: int| i <= j < byte_pos(b, i, x) ==> b[j] != x,
    decreases b.len() - i,
{
    if i < b.len() && b[i] != x {
        lemma_byte_pos_bounds(b, i + 1, x);
    }
}

/// Finds the first occurrence of `x` at or after `from`.
pub fn find_byte(b: &[u8], from: usize, x: u8) -> (r: usize)
    requires
        from <= b@.len(),
    ensures
        r == byte_pos(b@, from as int, x),
{
    let n = b.len();
    let mut i: usize = from;
    while i < n
        invariant
            from <= i <= n,
            n == b@.len(),
            byte_pos(b@, from as int, x) == byte_pos(b@, i as int, x),
        decreases n - i,
    {
        if b[i] == x {
            return i;
        }
        i = i + 1;
    }
    i
}

/// True when the bytes equal the wire form of the given string slice.
pub fn name_is(n: &[u8], s: &str) -> (r: bool)
    ensures
        r == (n@ == s.spec_bytes()),
{
    let r = bytes_eq(n, s.as_bytes());
    proof {
        if n@ =~= s.spec_bytes() {
            assert(n@ == s.spec_bytes());
        }
    }
    r
}

/// True when every byte is plain ASCII.
pub open spec fn all_ascii(b: Seq<u8>) -> bool {
    forall|i: int| 0 <= i < b.len() ==> b[i] < 0x80
}

pub fn check_ascii(b: &[u8]) -> (r: bool)
    ensures
        r == all_ascii(b@),
{
    let n = b.len();
    let mut i: usize = 0;
    while i < n
        invariant
            i <= n,
            n == b@.len(),
            forall|j: int| 0 <= j < i ==> b@[j] < 0x80,
        decreases n - i,
    {
        if b[i] >= 0x80 {
            return false;
        }
        i = i + 1;
    }
    true
}

/// True when no byte is NUL, so the bytes can pass as a C string.
pub open spec fn no_nul(b: Seq<u8>) -> bool {
    forall|i: int| 0 <= i < b.len() ==> b[i] != 0
}

pub fn check_no_nul(b: &[u8]) -> (r: bool)
    ensures
        r == no_nul(b@),
{
    let n = b.len();
    let mut i: usize = 0;
    while i < n
        invariant
            i <= n,
            n == b@.len(),
            forall|j: int| 0 <= j < i ==> b@[j] != 0,
        decreases n - i,
    {
        if b[i] == 0 {
            return false;
        }
        i = i + 1;
    }
    true
}

/// The characters that a sequence of ASCII bytes spells.
pub open spec fn ascii_chars(b: Seq<u8>) -> Seq<char> {
    b.map_values(|x: u8| x as char)
}

/// Relies on `String::from_utf8`: bytes below 0x80 decode to the code
/// points of the same values, one character per byte.
#[verifier::external_body]
pub fn string_from_ascii(v: Vec<u8>) -> (r: String)
    requires
        all_ascii(v@),
    ensures
        r@ == ascii_chars(v@),
{
    String::from_utf8(v).unwrap_or_default()
}

/// Copies `b[from..to]` into a fresh vector.
pub fn copy_range(b: &[u8], from: usize, to: usize) -> (r: Vec<u8>)
    requires
        from <= to <= b@.len(),
    ensures
        r@ == b@.subrange(from as int, to as int),
{
    let mut out: Vec<u8> = Vec::new();
    let mut i: usize = from;
    while i < to
        invariant
            from <= i <= to <= b@.len(),
            out@ == b@.subrange(from as int, i as int),
        decreases to - i,
    {
        out.push(b[i]);
        assert(out@ =~= b@.subrange(from as int, i + 1 as int));
        i = i + 1;
    }
    out
}

/// The value of a run of ASCII digits read as a decimal number.
pub open spec fn dec_val(b: Seq<u8>) -> int
    decreases b.len(),
{
    if b.len() == 0 {
        0
    } else {
        dec_val(b.drop_last()) * 10 + (b.last() - 0x30)
    }
}

/// True when the two string slices spell the same characters.
pub fn str_eq(a: &str, b: &str) -> (r: bool)
    ensures
        r == (a@ == b@),
{
    let r = bytes_eq(a.as_bytes(), b.as_bytes());
    proof {
        if a.spec_bytes() =~= b.spec_bytes() {
            vstd::utf8::encode_utf8_decode_utf8(a@);
            vstd::utf8::encode_utf8_decode_utf8(b@);
        }
    }
    r
}

/// True when the bytes are one or more ASCII digits.
pub open spec fn all_digits(b: Seq<u8>) -> bool {
    forall|i: int| 0 <= i < b.len() ==> 0x30 <= #[trigger] b[i] <= 0x39
}

/// Reads a decimal number, accepting exactly the strings of one or more
/// digits whose value fits in 32 bits.
pub fn parse_u32_dec(b: &[u8]) -> (r: Option<u32>)
    ensures
        match r {
            Some(x) => b@.len() > 0 && all_digits(b@) && dec_val(b@) == x,
            None => b@.len() == 0 || !all_digits(b@) || dec_val(b@) > u32::MAX,
        },
{
    if b.len() == 0 {
        return None;
    }
    let n = b.len();
    let mut acc: u64 = 0;
    let mut i: usize = 0;
    while i < n
        invariant
            i <= n,
            n == b@.len(),
            all_digits(b@.subrange(0, i as int)),
            acc == dec_val(b@.subrange(0, i as int)),
            acc <= u32::MAX,
        decreases n - i,
    {
        let d = b[i];
        if d < 0x30 || d > 0x39 {
            assert(!all_digits(b@)) by {
                assert(0 <= i < b@.len() && !(0x30 <= b@[i as int] <= 0x39));
            }
            return None;
        }
        let dv = (d - 0x30) as u64;
        proof {
            let pre = b@.subrange(0, i + 1 as int);
            assert(pre.drop_last() =~= b@.subrange(0, i as int));
        }
        acc = acc * 10 + dv;
        if acc > u32::MAX as u64 {
            proof {
                if all_digits(b@) {
                    lemma_dec_val_prefix_monotone(b@, i + 1);
                }
            }
            return None;
        }
        i = i + 1;
    }
    proof {
        assert(b@.subrange(0, n as int) =~= b@);
    }
    Some(acc as u32)
}

/// The decimal digits that spell `x`, most significant first, with no
/// leading zero.
pub open spec fn dec_bytes(x: int) -> Seq<u8>
    recommends
        x >= 0,
    decreases x,
{
    if x < 10 {
        seq![(x % 10 + 0x30) as u8]
    } else {
        dec_bytes(x / 10).push((x % 10 + 0x30) as u8)
    }
}

/// The bytes reversed.
pub open spec fn rev_bytes(v: Seq<u8>) -> Seq<u8>
    decreases v.len(),
{
    if v.len() == 0 {
        Seq::empty()
    } else {
        seq![v.last()] + rev_bytes(v.drop_last())
    }
}

pub proof fn lemma_rev_bytes_len(v: Seq<u8>)
    ensures
        rev_bytes(v).len() == v.len(),
    decreases v.len(),
{
    if v.len() > 0 {
        lemma_rev_bytes_len(v.drop_last());
    }
}

pub proof fn lemma_rev_bytes_index(v: Seq<u8>, i: int)
    requires
        0 <= i < v.len(),
    ensures
        rev_bytes(v)[i] == v[v.len() - 1 - i],
    decreases v.len(),
{
    lemma_rev_bytes_len(v.drop_last());
    if i > 0 {
        lemma_rev_bytes_index(v.drop_last(), i - 1);
    }
}

/// The shortest decimal spelling of `x`, as digit bytes.
pub fn dec_bytes_vec(x: u64) -> (r: Vec<u8>)
    ensures
        r@ == dec_bytes(x as int),
        all_digits(r@),
{
    let mut v: Vec<u8> = Vec::new();
    let mut m = x;
    proof {
        assert(dec_bytes(x as int) =~= dec_bytes(x as int) + rev_bytes(v@));
    }
    while m >= 10
        invariant
            dec_bytes(x as int) == dec_bytes(m as int) + rev_bytes(v@),
            forall|j: int| 0 <= j < v@.len() ==> 0x30 <= #[trigger] v@[j] <= 0x39,
        decreases m,
    {
        let ghost v0 = v@;
        let d = (m % 10) as u8 + 0x30;
        v.push(d);
        proof {
            assert(rev_bytes(v@) =~= seq![d] + rev_bytes(v0)) by {
                assert(v@.last() == d);
                assert(v@.drop_last() =~= v0);
            }
            assert(dec_bytes(m as int) =~= dec_bytes(m as int / 10) + (seq![d] + rev_bytes(
                Seq::<u8>::empty(),
            ))) by {
                assert(rev_bytes(Seq::<u8>::empty()) =~= Seq::<u8>::empty());
                assert(dec_bytes(m as int / 10).push(d) =~= dec_bytes(m as int / 10) + seq![d]);
                assert(dec_bytes(m as int / 10) + seq![d] =~= dec_bytes(m as int / 10) + (seq![d]
                    + Seq::<u8>::empty()));
            }
            assert(dec_bytes(x as int) =~= dec_bytes((m / 10) as int) + rev_bytes(v@)) by {
                assert((dec_bytes(m as int / 10) + seq![d]) + rev_bytes(v0) =~= dec_bytes(
                    m as int / 10,
                ) + (seq![d] + rev_bytes(v0)));
                assert(dec_bytes(m as int) =~= dec_bytes(m as int / 10) + seq![d]);
            }
        }
        m = m / 10;
    }
    let ghost v0 = v@;
    let d = m as u8 + 0x30;
    v.push(d);
    proof {
        assert(dec_bytes(m as int) =~= seq![d]);
        assert(rev_bytes(v@) =~= seq![d] + rev_bytes(v0)) by {
            assert(v@.last() == d);
            assert(v@.drop_last() =~= v0);
        }
        assert(dec_bytes(x as int) =~= rev_bytes(v@));
    }
    let n = v.len();
    let mut out: Vec<u8> = Vec::new();
    let mut i: usize = 0;
    while i < n
        invariant
            n == v@.len(),
            i <= n,
            out@.len() == i,
            forall|j: int| 0 <= j < v@.len() ==> 0x30 <= #[trigger] v@[j] <= 0x39,
            forall|j: int| 0 <= j < i ==> out@[j] == v@[n - 1 - j],
        decreases n - i,
    {
        out.push(v[n - 1 - i]);
        i = i + 1;
    }
    proof {
        lemma_rev_bytes_len(v@);
        assert forall|j: int| 0 <= j < n implies out@[j] == rev_bytes(v@)[j] by {
            lemma_rev_bytes_index(v@, j);
        }
        assert(out@ =~= rev_bytes(v@));
    }
    out
}

/// The decimal spelling of `x`.
pub fn u64_dec_string(x: u64) -> (r: String)
    ensures
        r@ == ascii_chars(dec_bytes(x as int)),
{
    let v = dec_bytes_vec(x);
    proof {
        assert(all_ascii(v@));
    }
    string_from_ascii(v)
}

/// A longer digit run never names a smaller number, so once a prefix
/// overflows the whole run overflows.
proof fn lemma_dec_val_prefix_monotone(b: Seq<u8>, i: int)
    requires
        0 <= i <= b.len(),
        all_digits(b),
    ensures
        dec_val(b) >= dec_val(b.subrange(0, i)),
    decreases b.len() - i,
{
    if i < b.len() {
        let pre = b.subrange(0, i + 1);
        assert(pre.drop_last() =~= b.subrange(0, i));
        lemma_dec_val_nonneg(b.subrange(0, i));
        assert(0x30 <= pre.last() <= 0x39);
        assert(dec_val(pre) >= dec_val(b.subrange(0, i)));
        lemma_dec_val_prefix_monotone(b, i + 1);
    } else {
        assert(b.subrange(0, i) =~= b);
    }
}

/// A run of digits names a number that is not negative.
proof fn lemma_dec_val_nonneg(b: Seq<u8>)
    requires
        all_digits(b),
    ensures
        dec_val(b) >= 0,
    decreases b.len(),
{
    if b.len() > 0 {
        lemma_dec_val_nonneg(b.drop_last());
    }
}

} // verus!
