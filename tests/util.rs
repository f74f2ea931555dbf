use ipstack::util::{compute_checksum, get_be16, get_be32, set_be16, set_be32};

fn sample_header() -> Vec<u8> {
    vec![
        0x45, 0x00, 0x00, 0x73, 0x00, 0x00, 0x40, 0x00, 0x40, 0x11, 0xb8, 0x61, 0xc0, 0xa8, 0x00,
        0x01, 0xc0, 0xa8, 0x00, 0xc7,
    ]
}

#[test]
fn checksum_of_known_header() {
    let mut h = sample_header();
    h[10] = 0;
    h[11] = 0;
    assert_eq!(compute_checksum(&h), 0xb861);
}

#[test]
fn checksum_of_valid_header_is_zero() {
    assert_eq!(compute_checksum(&sample_header()), 0);
}

#[test]
fn checksum_of_empty_is_all_ones() {
    assert_eq!(compute_checksum(&[]), 0xffff);
}

#[test]
fn checksum_pads_odd_byte() {
    assert_eq!(compute_checksum(&[0x01]), 0xfeff);
    assert_eq!(compute_checksum(&[0x12, 0x34, 0x56]), 0x97cb);
}

#[test]
fn checksum_adds_carry_back() {
    // 0xffff + 0x0002 = 0x10001, folded to 0x0002
    assert_eq!(compute_checksum(&[0xff, 0xff, 0x00, 0x02]), 0xfffd);
}

#[test]
fn be16_and_be32_round_trip() {
    let mut b = vec![0u8; 8];
    set_be16(&mut b, 1, 0xabcd);
    assert_eq!(b, vec![0, 0xab, 0xcd, 0, 0, 0, 0, 0]);
    assert_eq!(get_be16(&b, 1), 0xabcd);
    set_be32(&mut b, 4, 0x0a000001);
    assert_eq!(&b[4..8], &[0x0a, 0x00, 0x00, 0x01]);
    assert_eq!(get_be32(&b, 4), 0x0a000001);
    assert_eq!(b[0], 0);
    assert_eq!(b[3], 0);
}
