//! Tests of the cpu-list and kernel-release decoders and the packet
//! offset arithmetic.

use redbpf::cpus::parse_cpu_list;
use redbpf::error::LoadError;
use redbpf::file::FileAccess;
use redbpf::release::parse_release;
use redbpf::tls::{iph_len, parse_ips, parse_tcp_ports, tag_ip_and_ports, tcp_len, tcp_payload_offset};
use redbpf::wire::u64_dec_string;

#[test]
fn cpu_list_with_ranges() {
    assert_eq!(parse_cpu_list(b"0-3,5,7-9").unwrap(), vec![0, 1, 2, 3, 5, 7, 8, 9]);
}

#[test]
fn cpu_list_single() {
    assert_eq!(parse_cpu_list(b"0").unwrap(), vec![0]);
    assert_eq!(parse_cpu_list(b"0-1").unwrap(), vec![0, 1]);
    assert_eq!(parse_cpu_list(b"4,4").unwrap(), vec![4, 4]);
}

#[test]
fn cpu_list_malformed() {
    assert!(matches!(parse_cpu_list(b""), Err(LoadError::OsIntrospection(_))));
    assert!(matches!(parse_cpu_list(b"x"), Err(LoadError::OsIntrospection(_))));
    assert!(matches!(parse_cpu_list(b"3-1"), Err(LoadError::OsIntrospection(_))));
    assert!(matches!(parse_cpu_list(b"1,"), Err(LoadError::OsIntrospection(_))));
    assert!(matches!(parse_cpu_list(b"1-"), Err(LoadError::OsIntrospection(_))));
}

#[test]
fn release_code_packs_the_leading_triple() {
    assert_eq!(parse_release(b"5.15.0-91").unwrap(), (5 << 16) | (15 << 8));
    assert_eq!(parse_release(b"4.19.113").unwrap(), (4 << 16) | (19 << 8) | 113);
    assert_eq!(parse_release(b"6.1.12-arch1-1").unwrap(), (6 << 16) | (1 << 8) | 12);
}

#[test]
fn release_code_rejects_other_shapes() {
    assert!(matches!(parse_release(b"5.15-91"), Err(LoadError::KernelRelease(_))));
    assert!(matches!(parse_release(b"linux"), Err(LoadError::KernelRelease(_))));
    assert!(matches!(parse_release(b""), Err(LoadError::KernelRelease(_))));
    assert!(matches!(parse_release(b"5.x.0"), Err(LoadError::KernelRelease(_))));
}

/// A frame with a 20-byte IP header and a 32-byte TCP header.
fn frame() -> Vec<u8> {
    let mut f = vec![0u8; 80];
    f[14] = 0x45; // version 4, IHL 5 words
    // TCP header starts at 14 + 20 = 34.
    f[34] = 0x1f; // source port 0x1f90 = 8080
    f[35] = 0x90;
    f[36] = 0x01; // destination port 0x01bb = 443
    f[37] = 0xbb;
    f[34 + 12] = 0x80; // data offset 8 words = 32 bytes
    f
}

#[test]
fn packet_offsets() {
    let f = frame();
    assert_eq!(iph_len(&f), 20);
    assert_eq!(tcp_len(&f), 32);
    assert_eq!(tcp_payload_offset(&f), 14 + 20 + 32);
}

#[test]
fn tcp_ports_are_big_endian() {
    let f = frame();
    let (d, s) = parse_tcp_ports(&f);
    assert_eq!(s, 8080);
    assert_eq!(d, 443);
}

#[test]
fn decimal_spelling() {
    assert_eq!(u64_dec_string(0), "0");
    assert_eq!(u64_dec_string(7), "7");
    assert_eq!(u64_dec_string(105), "105");
    assert_eq!(u64_dec_string(18446744073709551615), "18446744073709551615");
}

#[test]
fn address_and_port_tags() {
    let mut f = frame();
    f[26..30].copy_from_slice(&[10, 0, 0, 1]); // source address
    f[30..34].copy_from_slice(&[192, 168, 17, 254]); // destination address

    let (d, s) = parse_ips(&f);
    assert_eq!(d, "192.168.17.254");
    assert_eq!(s, "10.0.0.1");

    let tags = tag_ip_and_ports(&f);
    assert_eq!(tags.len(), 4);
    assert_eq!(tags[0], ("d_ip".to_string(), "192.168.17.254".to_string()));
    assert_eq!(tags[1], ("s_ip".to_string(), "10.0.0.1".to_string()));
    assert_eq!(tags[2], ("d_port".to_string(), "443".to_string()));
    assert_eq!(tags[3], ("s_port".to_string(), "8080".to_string()));
}

#[test]
fn file_access_tags() {
    let fa = FileAccess {
        id: 42,
        process: "cat".to_string(),
        path: "etc/hosts".to_string(),
        ino: 1048709,
        read: 512,
        write: 0,
    };
    let tags = fa.to_tags();
    assert_eq!(tags[0], ("task_id".to_string(), "42".to_string()));
    assert_eq!(tags[1], ("process".to_string(), "cat".to_string()));
    assert_eq!(tags[2], ("path".to_string(), "etc/hosts".to_string()));
    assert_eq!(tags[3], ("ino".to_string(), "1048709".to_string()));
}
