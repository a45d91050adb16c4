use dnsclient::answers::{
    addresses, addresses_of, addresses_v4, addresses_v6, records_data, shuffled, texts, RecordKind,
};
use dnsclient::client::build_query;
use dnsclient::{Error, IpAddress, Message, Record, RecordData};

fn response(name: &[u8], rr_type: &str, answers: &[(u16, u16, Vec<u8>)]) -> Message {
    let mut wire = build_query(name, rr_type, "IN").unwrap().into_wire();
    wire[2] |= 0x80;
    wire[7] = answers.len() as u8;
    for (rtype, class, rdata) in answers {
        wire.extend_from_slice(&[0xc0, 0x0c]);
        wire.extend_from_slice(&rtype.to_be_bytes());
        wire.extend_from_slice(&class.to_be_bytes());
        wire.extend_from_slice(&[0, 0, 0, 60]);
        wire.extend_from_slice(&(rdata.len() as u16).to_be_bytes());
        wire.extend_from_slice(rdata);
    }
    Message::decode(wire).unwrap()
}

fn v6(last: u8) -> [u8; 16] {
    let mut octets = [0u8; 16];
    octets[0] = 0x20;
    octets[1] = 0x01;
    octets[2] = 0x0d;
    octets[3] = 0xb8;
    octets[15] = last;
    octets
}

#[test]
fn decoded_answers_carry_class_type_and_payload() {
    let message = response(
        b"example.com",
        "A",
        &[(1, 1, vec![10, 0, 0, 1]), (16, 1, vec![2, b'h', b'i']), (28, 1, v6(9).to_vec())],
    );
    assert_eq!(
        message.answers(),
        &vec![
            Record { class: 1, rtype: 1, data: RecordData::Address(vec![10, 0, 0, 1]) },
            Record { class: 1, rtype: 16, data: RecordData::Bytes(vec![2, b'h', b'i']) },
            Record { class: 1, rtype: 28, data: RecordData::Address(v6(9).to_vec()) },
        ]
    );
}

#[test]
fn ipv4_addresses_come_in_wire_order() {
    let message = response(
        b"example.com",
        "A",
        &[
            (1, 1, vec![10, 0, 0, 2]),
            (5, 1, vec![3, b'w', b'w', b'w', 0xc0, 0x0c]),
            (28, 1, v6(1).to_vec()),
            (1, 1, vec![10, 0, 0, 1]),
        ],
    );
    assert_eq!(addresses_v4(&message), vec![[10, 0, 0, 2], [10, 0, 0, 1]]);
    assert_eq!(addresses_v6(&message), vec![v6(1)]);
}

#[test]
fn answers_without_addresses_give_no_addresses() {
    let message = response(b"example.com", "A", &[(16, 1, vec![1, b'x'])]);
    assert!(addresses_v4(&message).is_empty());
    assert!(addresses_v6(&message).is_empty());
    let empty = response(b"example.com", "A", &[]);
    assert!(addresses_v4(&empty).is_empty());
}

#[test]
fn union_lists_ipv4_before_ipv6() {
    let list = addresses(&vec![[1, 2, 3, 4], [5, 6, 7, 8]], &vec![v6(1)]);
    assert_eq!(
        list,
        vec![IpAddress::V4([1, 2, 3, 4]), IpAddress::V4([5, 6, 7, 8]), IpAddress::V6(v6(1))]
    );
    assert!(addresses(&vec![], &vec![]).is_empty());
}

#[test]
fn union_of_two_answers_lists_ipv4_before_ipv6() {
    let a = response(
        b"example.com",
        "A",
        &[(1, 1, vec![10, 0, 0, 2]), (28, 1, v6(7).to_vec()), (1, 1, vec![10, 0, 0, 1])],
    );
    let aaaa = response(
        b"example.com",
        "AAAA",
        &[(28, 1, v6(2).to_vec()), (1, 1, vec![10, 0, 0, 9]), (28, 1, v6(1).to_vec())],
    );
    assert_eq!(
        addresses_of(Ok(a), Ok(aaaa)).unwrap(),
        vec![
            IpAddress::V4([10, 0, 0, 2]),
            IpAddress::V4([10, 0, 0, 1]),
            IpAddress::V6(v6(2)),
            IpAddress::V6(v6(1)),
        ]
    );
}

#[test]
fn union_fails_when_either_lookup_failed() {
    let a = || response(b"example.com", "A", &[(1, 1, vec![10, 0, 0, 2])]);
    let aaaa = || response(b"example.com", "AAAA", &[(28, 1, v6(2).to_vec())]);
    assert_eq!(addresses_of(Ok(a()), Err(Error::NoResponse)).unwrap_err(), Error::NoResponse);
    assert_eq!(addresses_of(Err(Error::Codec), Ok(aaaa())).unwrap_err(), Error::Codec);
    assert_eq!(
        addresses_of(Err(Error::NoQuestion), Err(Error::NoResponse)).unwrap_err(),
        Error::NoQuestion
    );
}

#[test]
fn texts_are_decoded_per_record() {
    let message = response(
        b"example.com",
        "TXT",
        &[
            (16, 1, vec![3, b'a', b'b', b'c', 2, b'd', b'e']),
            (1, 1, vec![10, 0, 0, 1]),
            (16, 1, vec![0]),
            (16, 1, vec![4, b't', b'e', b'x', b't']),
        ],
    );
    assert_eq!(
        texts(&message).unwrap(),
        vec![b"abcde".to_vec(), Vec::new(), b"text".to_vec()]
    );
}

#[test]
fn one_text_that_is_cut_short_fails_the_call() {
    let message = response(
        b"example.com",
        "TXT",
        &[(16, 1, vec![1, b'a']), (16, 1, vec![5, b'a', b'b', b'c'])],
    );
    assert_eq!(texts(&message).unwrap_err(), Error::InvalidRecord);
}

#[test]
fn raw_data_is_filtered_by_class_and_type() {
    let message = response(
        b"example.com",
        "MX",
        &[
            (15, 1, vec![0, 10, 4, b'm', b'a', b'i', b'l', 0xc0, 0x0c]),
            (16, 1, vec![1, b'x']),
            (15, 3, vec![0, 20, 0]),
            (15, 1, vec![0, 30, 0]),
            (1, 1, vec![10, 0, 0, 1]),
        ],
    );
    let mx = RecordKind::parse("IN", "MX").unwrap();
    assert_eq!(
        records_data(&message, &mx),
        vec![vec![0, 10, 4, b'm', b'a', b'i', b'l', 0xc0, 0x0c], vec![0, 30, 0]]
    );
    let txt = RecordKind::parse("IN", "TXT").unwrap();
    assert_eq!(records_data(&message, &txt), vec![vec![1, b'x']]);
    let a = RecordKind::parse("IN", "A").unwrap();
    assert!(records_data(&message, &a).is_empty());
    let chaos = RecordKind { class: 3, rtype: 15 };
    assert_eq!(records_data(&message, &chaos), vec![vec![0, 20, 0]]);
}

#[test]
fn shuffling_keeps_the_items() {
    let items: Vec<u32> = (0..64).collect();
    let mut mixed = shuffled(items.clone());
    assert_ne!(mixed, items);
    mixed.sort();
    assert_eq!(mixed, items);
    assert_eq!(shuffled(vec![[1u8, 2, 3, 4]]), vec![[1u8, 2, 3, 4]]);
    assert!(shuffled(Vec::<u8>::new()).is_empty());
}
