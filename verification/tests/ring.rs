//! Tests of the per-cpu ring reader: record framing, wrap reassembly,
//! lost-record accounting, the mapped-length check, and the ring plan.

use redbpf::error::LoadError;
use redbpf::map::{KernelMap, MapDef};
use redbpf::perf::{bind_plan, check_power_of_two, PerfMap, RingEvent};

/// Writes `bytes` into the ring at absolute position `pos`, wrapping.
fn ring_write(data: &mut [u8], pos: u64, bytes: &[u8]) {
    let n = data.len() as u64;
    for (i, b) in bytes.iter().enumerate() {
        data[((pos + i as u64) % n) as usize] = *b;
    }
}

/// One sample record of `size` bytes in all: the header, then a payload
/// filled with `fill`.
fn sample_record(size: u16, fill: u8) -> Vec<u8> {
    let mut r = Vec::new();
    r.extend_from_slice(&9u32.to_le_bytes()); // type: sample
    r.extend_from_slice(&0u16.to_le_bytes()); // misc
    r.extend_from_slice(&size.to_le_bytes());
    r.resize(size as usize, fill);
    r
}

/// One lost-records record reporting `count` drops.
fn lost_record(count: u64) -> Vec<u8> {
    let mut r = Vec::new();
    r.extend_from_slice(&2u32.to_le_bytes()); // type: lost
    r.extend_from_slice(&0u16.to_le_bytes());
    r.extend_from_slice(&24u16.to_le_bytes());
    r.extend_from_slice(&0u64.to_le_bytes()); // id
    r.extend_from_slice(&count.to_le_bytes());
    r
}

#[test]
fn four_records_across_the_wrap() {
    // Records of sizes 24, 24, 24, 32 written by the kernel at a
    // 64-byte region: the third straddles the end; the reader,
    // draining as the producer advances, delivers all four payloads in
    // order and ends with its cursor at 104.
    let mut data = vec![0u8; 64];
    let mut pm = PerfMap { data_size: 64, tail: 0, lost: 0 };

    ring_write(&mut data, 0, &sample_record(24, 0xa1));
    ring_write(&mut data, 24, &sample_record(24, 0xb2));
    let mut events = pm.drain(&data, 48);

    ring_write(&mut data, 48, &sample_record(24, 0xc3));
    ring_write(&mut data, 72, &sample_record(32, 0xd4));
    events.extend(pm.drain(&data, 104));

    assert_eq!(pm.tail, 104);
    assert_eq!(pm.tail % 64, 40);
    assert_eq!(events.len(), 4);
    let fills = [0xa1u8, 0xb2, 0xc3, 0xd4];
    let lens = [16usize, 16, 16, 24];
    for (i, ev) in events.iter().enumerate() {
        match ev {
            RingEvent::Sample(p) => {
                assert_eq!(p.len(), lens[i]);
                assert!(p.iter().all(|b| *b == fills[i]));
            },
            _ => panic!("expected only samples"),
        }
    }
}

#[test]
fn wrapped_record_decodes_like_contiguous() {
    // The same record bytes, once straddling the wrap and once laid
    // out contiguously, decode to the same payload.
    let rec = sample_record(32, 0x5e);

    let mut wrapped = vec![0u8; 64];
    ring_write(&mut wrapped, 48, &rec); // 16 bytes at the end, 16 at the start
    let mut pm1 = PerfMap { data_size: 64, tail: 48, lost: 0 };
    let ev1 = pm1.drain(&wrapped, 48 + 32);

    let mut contiguous = vec![0u8; 64];
    ring_write(&mut contiguous, 0, &rec);
    let mut pm2 = PerfMap { data_size: 64, tail: 0, lost: 0 };
    let ev2 = pm2.drain(&contiguous, 32);

    assert_eq!(ev1.len(), 1);
    assert_eq!(ev2.len(), 1);
    match (&ev1[0], &ev2[0]) {
        (RingEvent::Sample(a), RingEvent::Sample(b)) => assert_eq!(a, b),
        _ => panic!("expected samples"),
    }
}

#[test]
fn empty_ring_yields_nothing() {
    // With no ready data the drain returns at once and delivers no
    // events.
    let data = vec![0u8; 64];
    let mut pm = PerfMap { data_size: 64, tail: 40, lost: 0 };
    let events = pm.drain(&data, 40);
    assert!(events.is_empty());
    assert_eq!(pm.tail, 40);
    assert_eq!(pm.lost, 0);
}

#[test]
fn lost_records_increment_the_counter() {
    // A lost record among samples bumps the counter by the reported
    // count; the samples around it still arrive.
    let mut data = vec![0u8; 128];
    ring_write(&mut data, 0, &sample_record(16, 1));
    ring_write(&mut data, 16, &lost_record(7));
    ring_write(&mut data, 40, &sample_record(16, 2));

    let mut pm = PerfMap { data_size: 128, tail: 0, lost: 3 };
    let events = pm.drain(&data, 56);
    assert_eq!(pm.lost, 10);
    assert_eq!(events.len(), 3);
    assert!(matches!(&events[0], RingEvent::Sample(p) if p.iter().all(|b| *b == 1)));
    assert!(matches!(&events[1], RingEvent::Lost(7)));
    assert!(matches!(&events[2], RingEvent::Sample(p) if p.iter().all(|b| *b == 2)));
}

#[test]
fn unknown_record_types_are_skipped() {
    let mut data = vec![0u8; 64];
    let mut other = Vec::new();
    other.extend_from_slice(&3u32.to_le_bytes()); // some other type
    other.extend_from_slice(&0u16.to_le_bytes());
    other.extend_from_slice(&16u16.to_le_bytes());
    other.resize(16, 0);
    ring_write(&mut data, 0, &other);
    ring_write(&mut data, 16, &sample_record(16, 9));

    let mut pm = PerfMap { data_size: 64, tail: 0, lost: 0 };
    let events = pm.drain(&data, 32);
    assert_eq!(events.len(), 1);
    assert!(matches!(&events[0], RingEvent::Sample(p) if p.iter().all(|b| *b == 9)));
    assert_eq!(pm.tail, 32);
}

#[test]
fn malformed_header_abandons_the_batch() {
    // A record size below the header size cannot be stepped over; the
    // reader drops the batch and catches up to the producer.
    let mut data = vec![0u8; 64];
    let mut bad = Vec::new();
    bad.extend_from_slice(&9u32.to_le_bytes());
    bad.extend_from_slice(&0u16.to_le_bytes());
    bad.extend_from_slice(&4u16.to_le_bytes()); // size 4 < 8
    ring_write(&mut data, 0, &bad);

    let mut pm = PerfMap { data_size: 64, tail: 0, lost: 0 };
    let events = pm.drain(&data, 32);
    assert!(events.is_empty());
    assert_eq!(pm.tail, 32);
}

#[test]
fn page_count_must_be_a_power_of_two() {
    assert!(matches!(
        PerfMap::bind(4096, 12),
        Err(LoadError::OsIntrospection(_))
    ));
    assert!(matches!(PerfMap::bind(4096, 0), Err(LoadError::OsIntrospection(_))));
    let (pm, len) = PerfMap::bind(4096, 16).unwrap();
    assert_eq!(pm.data_size, 4096 * 16);
    assert_eq!(len, 4096 * 17);
    assert_eq!(pm.tail, 0);
    assert_eq!(pm.lost, 0);
}

#[test]
fn power_of_two_check() {
    assert!(check_power_of_two(1));
    assert!(check_power_of_two(2));
    assert!(check_power_of_two(16));
    assert!(check_power_of_two(1024));
    assert!(!check_power_of_two(0));
    assert!(!check_power_of_two(3));
    assert!(!check_power_of_two(12));
    assert!(!check_power_of_two(1023));
}

fn map_with_kind(kind: u32, section_index: usize) -> KernelMap {
    KernelMap {
        name: String::from("m"),
        kind,
        fd: None,
        section_index,
        config: MapDef { kind, key_size: 4, value_size: 4, max_entries: 8, map_flags: 0 },
    }
}

#[test]
fn two_cpus_get_one_ring_each() {
    // For a ring-buffer map and two online cpus, exactly two rings are
    // planned, registered under keys 0 and 1; other map types get none.
    let maps = vec![map_with_kind(1, 3), map_with_kind(4, 5)];
    let cpus = vec![0u32, 1u32];
    let plan = bind_plan(&maps, &cpus);
    assert_eq!(plan, vec![(1usize, 0u32), (1usize, 1u32)]);
}
