//! The TLS-handshake probe's user-side declaration: its configuration,
//! and the packet arithmetic that locates the TCP payload inside a raw
//! Ethernet frame handed up by a socket-filter program.

use vstd::prelude::*;

use crate::metrics::Tags;
use crate::wire::{all_ascii, ascii_chars, dec_bytes, dec_bytes_vec, string_from_ascii, u64_dec_string};

verus! {

/// Bytes of an Ethernet header before the IP header starts.
pub const ETH_HLEN: usize = 14;

/// Watches TLS handshakes on one interface.
pub struct TLS(pub TlsConfig);

/// Configuration of the TLS probe: the interface whose frames it
/// filters.
pub struct TlsConfig {
    pub interface: String,
}

/// The IP header length a frame declares: the low nibble of the first
/// IP byte, in 32-bit words.
pub open spec fn spec_iph_len(b: Seq<u8>) -> int
    recommends
        b.len() > 14,
{
    (b[14] & 0x0f) * 4
}

/// The IP header length in bytes of the frame's IP packet.
pub fn iph_len(buf: &[u8]) -> (r: usize)
    requires
        buf@.len() > 14,
    ensures
        r == spec_iph_len(buf@),
        r <= 60,
{
    let b0 = buf[ETH_HLEN];
    let b = b0 & 0x0f;
    proof {
        assert(b <= 0x0f) by (bit_vector)
            requires
                b == b0 & 0x0f,
        ;
    }
    (b as usize) * 4
}

/// The TCP header length the packet declares: the high nibble of the
/// twelfth TCP byte, in 32-bit words.
pub open spec fn spec_tcp_len(b: Seq<u8>) -> int
    recommends
        b.len() > 14 + spec_iph_len(b) + 12,
{
    (b[14 + spec_iph_len(b) + 12] >> 4) * 4
}

/// The TCP header length in bytes of the frame's TCP segment.
pub fn tcp_len(buf: &[u8]) -> (r: usize)
    requires
        buf@.len() > 14,
        buf@.len() > 14 + spec_iph_len(buf@) + 12,
    ensures
        r == spec_tcp_len(buf@),
        r <= 60,
{
    let ih = iph_len(buf);
    let b0 = buf[ETH_HLEN + ih + 12];
    let b = b0 >> 4;
    proof {
        assert(b <= 0x0f) by (bit_vector)
            requires
                b == b0 >> 4,
        ;
    }
    (b as usize) * 4
}

/// Where the TCP payload starts inside the frame: Ethernet header, IP
/// header, then TCP header.
pub fn tcp_payload_offset(buf: &[u8]) -> (r: usize)
    requires
        buf@.len() > 14,
        buf@.len() > 14 + spec_iph_len(buf@) + 12,
    ensures
        r == 14 + spec_iph_len(buf@) + spec_tcp_len(buf@),
{
    ETH_HLEN + iph_len(buf) + tcp_len(buf)
}

/// The destination and source TCP ports of the frame, in that order,
/// read big-endian from the start of the TCP header.
pub fn parse_tcp_ports(buf: &[u8]) -> (r: (u16, u16))
    requires
        buf@.len() > 14,
        buf@.len() >= 14 + spec_iph_len(buf@) + 4,
    ensures
        ({
            let offs = 14 + spec_iph_len(buf@);
            &&& r.0 == buf@[offs + 2] * 0x100 + buf@[offs + 3]
            &&& r.1 == buf@[offs] * 0x100 + buf@[offs + 1]
        }),
{
    let offs = ETH_HLEN + iph_len(buf);
    let s: u16 = (buf[offs] as u16) * 0x100 + buf[offs + 1] as u16;
    let d: u16 = (buf[offs + 2] as u16) * 0x100 + buf[offs + 3] as u16;
    (d, s)
}

/// The dotted-decimal spelling of an address, as bytes.
pub open spec fn ipv4_bytes(a: u8, b: u8, c: u8, d: u8) -> Seq<u8> {
    dec_bytes(a as int) + seq![0x2eu8] + dec_bytes(b as int) + seq![0x2eu8] + dec_bytes(c as int)
        + seq![0x2eu8] + dec_bytes(d as int)
}

/// Spells an address in dotted decimal.
fn ipv4_string(a: u8, b: u8, c: u8, d: u8) -> (r: String)
    ensures
        r@ == ascii_chars(ipv4_bytes(a, b, c, d)),
{
    let mut v = dec_bytes_vec(a as u64);
    v.push(0x2e);
    let mut t = dec_bytes_vec(b as u64);
    v.append(&mut t);
    v.push(0x2e);
    let mut t = dec_bytes_vec(c as u64);
    v.append(&mut t);
    v.push(0x2e);
    let mut t = dec_bytes_vec(d as u64);
    v.append(&mut t);
    proof {
        assert(v@ =~= ipv4_bytes(a, b, c, d));
        assert(all_ascii(v@));
    }
    string_from_ascii(v)
}

/// The frame's destination and source IP addresses, in that order, in
/// dotted decimal.
pub fn parse_ips(buf: &[u8]) -> (r: (String, String))
    requires
        buf@.len() >= 34,
    ensures
        r.0@ == ascii_chars(ipv4_bytes(buf@[30], buf@[31], buf@[32], buf@[33])),
        r.1@ == ascii_chars(ipv4_bytes(buf@[26], buf@[27], buf@[28], buf@[29])),
{
    let s = ipv4_string(buf[26], buf[27], buf[28], buf[29]);
    let d = ipv4_string(buf[30], buf[31], buf[32], buf[33]);
    (d, s)
}

/// The address and port tags of a frame: destination and source IP in
/// dotted decimal, destination and source TCP port in decimal.
pub fn tag_ip_and_ports(buf: &[u8]) -> (r: Tags)
    requires
        buf@.len() > 14,
        buf@.len() >= 34,
        buf@.len() >= 14 + spec_iph_len(buf@) + 4,
    ensures
        r@.len() == 4,
        r@[0].0@ == "d_ip"@ && r@[0].1@ == ascii_chars(
            ipv4_bytes(buf@[30], buf@[31], buf@[32], buf@[33]),
        ),
        r@[1].0@ == "s_ip"@ && r@[1].1@ == ascii_chars(
            ipv4_bytes(buf@[26], buf@[27], buf@[28], buf@[29]),
        ),
        ({
            let offs = 14 + spec_iph_len(buf@);
            &&& r@[2].0@ == "d_port"@ && r@[2].1@ == ascii_chars(
                dec_bytes(buf@[offs + 2] * 0x100 + buf@[offs + 3]),
            )
            &&& r@[3].0@ == "s_port"@ && r@[3].1@ == ascii_chars(
                dec_bytes(buf@[offs] * 0x100 + buf@[offs + 1]),
            )
        }),
{
    let (d_ip, s_ip) = parse_ips(buf);
    let (d_port, s_port) = parse_tcp_ports(buf);
    let mut tags: Tags = Vec::new();
    tags.push(("d_ip".to_owned(), d_ip));
    tags.push(("s_ip".to_owned(), s_ip));
    tags.push(("d_port".to_owned(), u64_dec_string(d_port as u64)));
    tags.push(("s_port".to_owned(), u64_dec_string(s_port as u64)));
    tags
}

} // verus!
