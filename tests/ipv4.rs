use ipstack::buf::NetBuffer;
use ipstack::ipv4::{ip_input, ip_output, IdCounter, Protocol, Verdict, PROTO_TCP, PROTO_UDP};
use ipstack::netif::{get_ipaddr, LOCAL_IP};
use ipstack::util::{compute_checksum, get_be16, get_be32, set_be16, set_be32};

/// A datagram of a 20-byte header with a correct checksum and `payload`.
fn datagram(protocol: u8, source: u32, dest: u32, payload: &[u8]) -> Vec<u8> {
    let mut d = vec![0u8; 20];
    d[0] = 0x45;
    set_be16(&mut d, 2, (20 + payload.len()) as u16);
    set_be16(&mut d, 4, 0x1c46);
    d[8] = 64;
    d[9] = protocol;
    set_be32(&mut d, 12, source);
    set_be32(&mut d, 16, dest);
    let c = compute_checksum(&d);
    set_be16(&mut d, 10, c);
    d.extend_from_slice(payload);
    d
}

#[test]
fn local_address() {
    assert_eq!(get_ipaddr(), 0x0a000002);
    assert_eq!(LOCAL_IP, 0x0a000002);
}

#[test]
fn udp_datagram_end_to_end() {
    let frame = datagram(17, 0x0a000001, 0x0a000002, &[1, 2, 3, 4, 5, 6, 7, 8]);
    assert_eq!(frame.len(), 28);
    assert_eq!(get_be16(&frame, 2), 28);
    let mut b = NetBuffer::from_frame(&frame);
    let v = ip_input(&mut b);
    assert_eq!(
        v,
        Verdict::Deliver { protocol: Protocol::Udp, source: 0x0a000001, dest: 0x0a000002 }
    );
    assert_eq!(b.headroom_len(), 20);
    assert_eq!(b.payload_len(), 8);
    assert_eq!(b.payload(), &[1, 2, 3, 4, 5, 6, 7, 8]);
}

#[test]
fn tcp_goes_to_tcp_only() {
    let frame = datagram(6, 0x0a000001, 0x0a000002, &[0xaa; 12]);
    let mut b = NetBuffer::from_frame(&frame);
    match ip_input(&mut b) {
        Verdict::Deliver { protocol, source, .. } => {
            assert_eq!(protocol, Protocol::Tcp);
            assert_ne!(protocol, Protocol::Udp);
            assert_ne!(protocol, Protocol::Icmp);
            assert_eq!(source, 0x0a000001);
        }
        other => panic!("not delivered: {:?}", other),
    }
    assert_eq!(b.payload_len(), 12);
}

#[test]
fn icmp_goes_to_icmp() {
    let frame = datagram(1, 0xc0a80001, 0x0a000002, &[8, 0, 0, 0]);
    let mut b = NetBuffer::from_frame(&frame);
    assert_eq!(
        ip_input(&mut b),
        Verdict::Deliver { protocol: Protocol::Icmp, source: 0xc0a80001, dest: 0x0a000002 }
    );
}

#[test]
fn unknown_protocol_is_reported_and_kept() {
    let frame = datagram(253, 0x0a000001, 0x0a000002, &[1, 2]);
    let mut b = NetBuffer::from_frame(&frame);
    assert_eq!(ip_input(&mut b), Verdict::UnknownProtocol { number: 253 });
    assert_eq!(b.payload(), &frame[..]);
}

#[test]
fn other_version_is_dropped_untouched() {
    let mut frame = datagram(17, 0x0a000001, 0x0a000002, &[1, 2, 3]);
    frame[0] = 0x65;
    let mut b = NetBuffer::from_frame(&frame);
    assert_eq!(ip_input(&mut b), Verdict::NotIpv4);
    assert_eq!(b.headroom_len(), 0);
    assert_eq!(b.payload(), &frame[..]);
}

#[test]
fn header_length_under_twenty_is_malformed() {
    let mut frame = datagram(17, 0x0a000001, 0x0a000002, &[1, 2, 3]);
    frame[0] = 0x44;
    let mut b = NetBuffer::from_frame(&frame);
    assert_eq!(ip_input(&mut b), Verdict::Malformed);
    assert_eq!(b.payload(), &frame[..]);
}

#[test]
fn header_length_over_capture_is_malformed() {
    let mut frame = datagram(17, 0x0a000001, 0x0a000002, &[]);
    frame[0] = 0x46;
    let mut b = NetBuffer::from_frame(&frame);
    assert_eq!(ip_input(&mut b), Verdict::Malformed);
}

#[test]
fn empty_frame_is_malformed() {
    let mut b = NetBuffer::from_frame(&[]);
    assert_eq!(ip_input(&mut b), Verdict::Malformed);
}

#[test]
fn corrupt_header_fails_checksum() {
    let mut frame = datagram(17, 0x0a000001, 0x0a000002, &[1, 2, 3]);
    frame[15] ^= 0x01;
    let mut b = NetBuffer::from_frame(&frame);
    match ip_input(&mut b) {
        Verdict::BadChecksum { checksum } => assert_ne!(checksum, 0),
        other => panic!("accepted: {:?}", other),
    }
    assert_eq!(b.payload(), &frame[..]);
}

#[test]
fn output_builds_a_valid_header() {
    let payload = [9u8, 8, 7, 6, 5, 4, 3, 2];
    let b = NetBuffer::with_payload(64, &payload);
    let out = ip_output(b, PROTO_UDP, 0x0a000001, 0x0102);
    let h = out.payload();
    assert_eq!(out.headroom_len(), 44);
    assert_eq!(h.len(), 28);
    assert_eq!(h[0], 0x45);
    assert_eq!(get_be16(h, 2), 28);
    assert_eq!(get_be16(h, 4), 0x0102);
    assert_eq!(h[8], 64);
    assert_eq!(h[9], 17);
    assert_eq!(get_be32(h, 12), 0x0a000002);
    assert_eq!(get_be32(h, 16), 0x0a000001);
    assert_eq!(compute_checksum(&h[..20]), 0);
    assert_ne!(get_be16(h, 10), 0);
    assert_eq!(&h[20..], &payload);
}

#[test]
fn output_passes_input() {
    let b = NetBuffer::with_payload(20, &[1, 2, 3]);
    let mut out = ip_output(b, PROTO_TCP, 0x08080808, 65535);
    assert_eq!(
        ip_input(&mut out),
        Verdict::Deliver { protocol: Protocol::Tcp, source: 0x0a000002, dest: 0x08080808 }
    );
    assert_eq!(out.payload(), &[1, 2, 3]);
}

#[test]
fn ids_count_up_from_zero() {
    let mut c = IdCounter::new();
    assert_eq!(c.next_id(), 0);
    assert_eq!(c.next_id(), 1);
    assert_eq!(c.next_id(), 2);
}

#[test]
fn ids_wrap_without_duplicates() {
    let mut c = IdCounter::new();
    let mut seen = vec![false; 65536];
    for _ in 0..65536 {
        let id = c.next_id() as usize;
        assert!(!seen[id]);
        seen[id] = true;
    }
    assert!(seen.iter().all(|s| *s));
    assert_eq!(c.next_id(), 0);
}

#[test]
fn ids_shared_behind_a_lock() {
    let counter = std::sync::Mutex::new(IdCounter::new());
    let mut ids = Vec::new();
    for _ in 0..100 {
        ids.push(counter.lock().unwrap().next_id());
    }
    ids.sort();
    ids.dedup();
    assert_eq!(ids.len(), 100);
    assert_eq!(ids[99], 99);
}
