use dnsclient::rdata::{decode_name, decode_txt, reverse_name};
use dnsclient::{Error, ErrorKind, IpAddress};

#[test]
fn txt_chunks_are_concatenated() {
    let data = [3u8, b'a', b'b', b'c', 2, b'd', b'e'];
    assert_eq!(decode_txt(&data).unwrap(), b"abcde".to_vec());
}

#[test]
fn txt_chunk_that_is_cut_short_is_invalid() {
    let data = [5u8, b'a', b'b', b'c'];
    let err = decode_txt(&data).unwrap_err();
    assert_eq!(err, Error::InvalidRecord);
    assert_eq!(err.kind(), ErrorKind::InvalidInput);
}

#[test]
fn txt_of_nothing_is_empty() {
    assert_eq!(decode_txt(&[]).unwrap(), Vec::<u8>::new());
    assert_eq!(decode_txt(&[0]).unwrap(), Vec::<u8>::new());
}

#[test]
fn name_labels_are_joined_with_dots() {
    let data = [3u8, b'o', b'n', b'e', 3, b'o', b'n', b'e', 3, b'o', b'n', b'e', 3, b'o', b'n', b'e', 0];
    assert_eq!(decode_name(&data).unwrap(), b"one.one.one.one".to_vec());
}

#[test]
fn name_without_labels_is_the_root() {
    assert_eq!(decode_name(&[0]).unwrap(), b".".to_vec());
    assert_eq!(decode_name(&[]).unwrap(), b".".to_vec());
}

#[test]
fn name_that_is_cut_short_is_invalid() {
    assert_eq!(decode_name(&[3, b'a', b'b']).unwrap_err(), Error::InvalidRecord);
    assert_eq!(decode_name(&[1, b'a', 0xc0]).unwrap_err(), Error::InvalidRecord);
}

#[test]
fn name_keeps_going_after_an_empty_label() {
    assert_eq!(decode_name(&[1, b'a', 0, 1, b'b']).unwrap(), b"a.b".to_vec());
    assert_eq!(decode_name(&[0, 1, b'b']).unwrap(), b"b".to_vec());
}

#[test]
fn reverse_name_of_ipv4() {
    assert_eq!(reverse_name(&IpAddress::V4([1, 1, 1, 1])), b"1.1.1.1.in-addr.arpa".to_vec());
    assert_eq!(reverse_name(&IpAddress::V4([192, 0, 2, 15])), b"15.2.0.192.in-addr.arpa".to_vec());
    assert_eq!(reverse_name(&IpAddress::V4([0, 10, 100, 255])), b"255.100.10.0.in-addr.arpa".to_vec());
}

#[test]
fn reverse_name_of_ipv6() {
    let ip = IpAddress::V6([0x20, 0x01, 0x0d, 0xb8, 0, 0, 0, 0, 0, 0, 0, 0, 0, 0, 0xab, 0x01]);
    assert_eq!(
        reverse_name(&ip),
        b"1.0.b.a.0.0.0.0.0.0.0.0.0.0.0.0.0.0.0.0.0.0.0.0.8.b.d.0.1.0.0.2.ip6.arpa".to_vec()
    );
}
