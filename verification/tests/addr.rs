use bgp_atomic_aggregate::{decode_addr_from, encode_addr_to, BgpError, IpAddr};

#[test]
fn address_width_follows_family() {
    assert_eq!(IpAddr::V4([1, 2, 3, 4]).width(), 4);
    assert_eq!(IpAddr::V6([9; 16]).width(), 16);
    assert_eq!(IpAddr::V4([1, 2, 3, 4]).octets(), &[1, 2, 3, 4]);
    assert_eq!(IpAddr::V6([9; 16]).octets(), &[9u8; 16]);
}

#[test]
fn address_codec_refuses_empty_payload() {
    assert_eq!(decode_addr_from(&[]), Err(BgpError::InvalidLength(0)));
}

#[test]
fn address_codec_reads_both_families() {
    assert_eq!(decode_addr_from(&[192, 0, 2, 7]), Ok(IpAddr::V4([192, 0, 2, 7])));
    let bytes = [0x20, 0x01, 0x0d, 0xb8, 0, 0, 0, 0, 0, 0, 0, 0, 0, 0, 0, 0x2a];
    assert_eq!(decode_addr_from(&bytes), Ok(IpAddr::V6(bytes)));
    assert_eq!(decode_addr_from(&bytes[..15]), Err(BgpError::InvalidLength(15)));
    assert_eq!(decode_addr_from(&[0; 17]), Err(BgpError::InvalidLength(17)));
}

#[test]
fn address_codec_writes_both_families() {
    let mut buf = [0xFFu8; 20];
    assert_eq!(encode_addr_to(&IpAddr::V4([192, 0, 2, 7]), &mut buf), Ok(4));
    assert_eq!(&buf[..5], &[192, 0, 2, 7, 0xFF]);
    let bytes = [0x20, 0x01, 0x0d, 0xb8, 0, 0, 0, 0, 0, 0, 0, 0, 0, 0, 0, 0x2a];
    assert_eq!(encode_addr_to(&IpAddr::V6(bytes), &mut buf), Ok(16));
    assert_eq!(&buf[..16], &bytes);
    assert_eq!(&buf[16..], &[0xFF; 4]);
    let mut short = [0u8; 15];
    assert_eq!(encode_addr_to(&IpAddr::V6(bytes), &mut short), Err(BgpError::BufferTooSmall));
    assert_eq!(short, [0u8; 15]);
}
