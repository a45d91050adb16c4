use dnsclient::answers::RecordKind;
use dnsclient::client::build_query;
use dnsclient::{
    DNSClient, Error, ErrorKind, IpAddress, Message, Progress, SocketAddress, TransportError,
    UpstreamServer,
};
use std::time::Duration;

fn server(last: u8) -> UpstreamServer {
    UpstreamServer::new(SocketAddress::new(IpAddress::V4([192, 0, 2, last]), 53))
}

fn raw_query(tid: u16) -> Vec<u8> {
    let mut wire = build_query(b"example.com", "A", "IN").unwrap().into_wire();
    wire[0] = (tid >> 8) as u8;
    wire[1] = tid as u8;
    wire
}

fn reply(query: &[u8]) -> Vec<u8> {
    let mut wire = query.to_vec();
    wire[2] |= 0x80;
    wire[7] = 1;
    wire.extend_from_slice(&[0xc0, 0x0c, 0, 1, 0, 1, 0, 0, 0, 60, 0, 4, 203, 0, 113, 1]);
    wire
}

#[test]
fn new_client_has_the_defaults() {
    let client = DNSClient::new(vec![server(1), server(2)]);
    assert_eq!(client.upstream_servers(), &vec![server(1), server(2)]);
    assert_eq!(client.timeout(), Duration::from_secs(6));
    assert_eq!(client.local_v4_addr(), SocketAddress::new(IpAddress::V4([0; 4]), 0));
    assert_eq!(client.local_v6_addr(), SocketAddress::new(IpAddress::V6([0; 16]), 0));
    assert!(!client.forces_tcp());
}

#[test]
fn setters_change_one_setting_each() {
    let mut client = DNSClient::new(vec![server(1)]);
    client.set_timeout(Duration::from_millis(1500));
    assert_eq!(client.timeout(), Duration::from_millis(1500));
    let v4 = SocketAddress::new(IpAddress::V4([127, 0, 0, 1]), 5300);
    client.set_local_v4_addr(v4);
    assert_eq!(client.local_v4_addr(), v4);
    assert_eq!(client.local_v6_addr(), SocketAddress::new(IpAddress::V6([0; 16]), 0));
    let v6 = SocketAddress::new(IpAddress::V6([1; 16]), 5301);
    client.set_local_v6_addr(v6);
    assert_eq!(client.local_v6_addr(), v6);
    assert_eq!(client.local_v4_addr(), v4);
    client.force_tcp(true);
    assert!(client.forces_tcp());
    assert_eq!(client.timeout(), Duration::from_millis(1500));
    assert_eq!(client.upstream_servers(), &vec![server(1)]);
}

#[test]
fn built_query_asks_for_the_name_in_lower_case() {
    let query = build_query(b"WWW.Example.Com", "aaaa", "in").unwrap();
    assert!(!query.is_response());
    assert!(!query.is_truncated());
    assert!(query.answers().is_empty());
    let question = query.question().clone().unwrap();
    assert_eq!(question.name, b"www.example.com".to_vec());
    assert_eq!(question.rtype, 28);
    assert_eq!(question.class, 1);
    assert!(query.wire().len() >= 12);
}

#[test]
fn built_query_is_the_codecs_encoding_after_the_transaction_id() {
    let wire = build_query(b"Example.com", "A", "IN").unwrap().into_wire();
    let mut body = vec![1u8, 0, 0, 1, 0, 0, 0, 0, 0, 0];
    body.extend_from_slice(b"\x07Example\x03com\x00");
    body.extend_from_slice(&[0, 1, 0, 1]);
    assert_eq!(&wire[2..], &body[..]);
    let again = build_query(b"Example.com", "a", "in").unwrap().into_wire();
    assert_eq!(&again[2..], &wire[2..]);
    let other = build_query(b"Example.com", "TXT", "CH").unwrap().into_wire();
    assert_eq!(&other[2..wire.len() - 4], &wire[2..wire.len() - 4]);
    assert_eq!(&other[wire.len() - 4..], &[0, 16, 0, 3]);
}

#[test]
fn typed_query_sends_the_codecs_encoding() {
    let client = DNSClient::new(vec![server(1)]);
    let sent = match client.query_txt("example.com") {
        Progress::Pending(resolution) => resolution.query().clone(),
        _ => panic!("the query should be pending"),
    };
    let built = build_query(b"example.com", "TXT", "IN").unwrap().into_wire();
    assert_eq!(&sent[2..], &built[2..]);
}

#[test]
fn built_query_refuses_what_the_codec_does_not_know() {
    assert_eq!(build_query(b"example.com", "NOSUCHTYPE", "IN").unwrap_err(), Error::Codec);
    assert_eq!(build_query(b"example.com", "A", "XX").unwrap_err(), Error::Codec);
    let long_label = [b'a'; 70];
    let error = build_query(&long_label, "A", "IN").unwrap_err();
    assert_eq!(error, Error::Codec);
    assert_eq!(error.kind(), ErrorKind::InvalidInput);
}

#[test]
fn typed_queries_ask_for_their_record_type() {
    let client = DNSClient::new(vec![server(1)]);
    let expect = |progress: Progress, name: &[u8], rtype: u16| match progress {
        Progress::Pending(resolution) => {
            let sent = Message::decode(resolution.query().clone()).unwrap();
            let question = sent.question().clone().unwrap();
            assert_eq!(question.name, name.to_vec());
            assert_eq!(question.rtype, rtype);
            assert_eq!(question.class, 1);
            assert!(!sent.is_response());
        }
        _ => panic!("the query should be pending"),
    };
    expect(client.query_a("example.com"), b"example.com", 1);
    expect(client.query_aaaa("example.com"), b"example.com", 28);
    expect(client.query_txt("example.com"), b"example.com", 16);
    expect(client.query_ptr(&IpAddress::V4([1, 1, 1, 1])), b"1.1.1.1.in-addr.arpa", 12);
    expect(client.query_rrs_data("example.com", "in", "mx"), b"example.com", 15);
}

#[test]
fn typed_query_for_a_name_that_cannot_be_encoded_fails() {
    let client = DNSClient::new(vec![server(1)]);
    let long_label = "a".repeat(70);
    assert!(matches!(client.query_a(&long_label), Progress::Failed(Error::Codec)));
    assert!(matches!(client.query_txt(&long_label), Progress::Failed(Error::Codec)));
}

#[test]
fn rrs_data_query_refuses_unknown_class_and_type() {
    let client = DNSClient::new(vec![server(1)]);
    assert!(matches!(
        client.query_rrs_data("example.com", "XX", "A"),
        Progress::Failed(Error::Codec)
    ));
    assert!(matches!(
        client.query_rrs_data("example.com", "IN", "NOSUCHTYPE"),
        Progress::Failed(Error::Codec)
    ));
}

#[test]
fn record_kind_goes_by_the_codecs_names() {
    assert_eq!(RecordKind::parse("IN", "MX").unwrap(), RecordKind { class: 1, rtype: 15 });
    assert_eq!(RecordKind::parse("ch", "txt").unwrap(), RecordKind { class: 3, rtype: 16 });
    assert_eq!(RecordKind::parse("HS", "A").unwrap(), RecordKind { class: 4, rtype: 1 });
    assert_eq!(RecordKind::parse("None", "PTR").unwrap(), RecordKind { class: 254, rtype: 12 });
    assert_eq!(RecordKind::parse("ANY", "AAAA").unwrap(), RecordKind { class: 255, rtype: 28 });
    assert_eq!(RecordKind::parse("IN ", "A").unwrap_err(), Error::Codec);
    assert_eq!(RecordKind::parse("IN", "").unwrap_err(), Error::Codec);
}

#[test]
fn raw_query_without_masking_travels_as_it_is() {
    let client = DNSClient::new(vec![server(1)]);
    let query = raw_query(0x1234);
    let (progress, caller_tid) = client.query_raw(&query, false);
    assert_eq!(caller_tid, None);
    let resolution = match progress {
        Progress::Pending(resolution) => resolution,
        _ => panic!("the query should be pending"),
    };
    assert_eq!(resolution.query(), &query);
    let answer = match resolution.advance(Ok(reply(&query))) {
        Progress::Answer(answer) => answer,
        _ => panic!("the reply should be the answer"),
    };
    assert_eq!(DNSClient::raw_response(answer, caller_tid), reply(&query));
}

#[test]
fn masked_raw_query_travels_under_the_mask_and_comes_back_under_its_own_id() {
    let client = DNSClient::new(vec![server(1)]);
    let query = raw_query(0x1234);
    let (progress, caller_tid) = client.query_raw_with(query.clone(), Some(0xbeef));
    assert_eq!(caller_tid, Some(0x1234));
    let resolution = match progress {
        Progress::Pending(resolution) => resolution,
        _ => panic!("the query should be pending"),
    };
    let sent = resolution.query().clone();
    assert_eq!(&sent[..2], &[0xbe, 0xef]);
    assert_eq!(&sent[2..], &query[2..]);
    let answer = match resolution.advance(Ok(reply(&sent))) {
        Progress::Answer(answer) => answer,
        _ => panic!("the reply should be the answer"),
    };
    assert_eq!(answer.tid(), 0xbeef);
    let bytes = DNSClient::raw_response(answer, caller_tid);
    assert_eq!(bytes, reply(&query));
    assert_eq!(&bytes[..2], &[0x12, 0x34]);
}

#[test]
fn masked_raw_query_rejects_a_reply_under_the_callers_id() {
    let client = DNSClient::new(vec![server(1)]);
    let query = raw_query(0x1234);
    let (progress, _) = client.query_raw_with(query.clone(), Some(0xbeef));
    let resolution = match progress {
        Progress::Pending(resolution) => resolution,
        _ => panic!("the query should be pending"),
    };
    assert!(matches!(
        resolution.advance(Ok(reply(&query))),
        Progress::Failed(Error::NoResponse)
    ));
}

#[test]
fn masked_raw_query_puts_the_callers_id_back() {
    let client = DNSClient::new(vec![server(1)]);
    let query = raw_query(0x0042);
    let (progress, caller_tid) = client.query_raw(&query, true);
    assert_eq!(caller_tid, Some(0x0042));
    let resolution = match progress {
        Progress::Pending(resolution) => resolution,
        _ => panic!("the query should be pending"),
    };
    let sent = resolution.query().clone();
    assert_eq!(&sent[2..], &query[2..]);
    let answer = match resolution.advance(Ok(reply(&sent))) {
        Progress::Answer(answer) => answer,
        _ => panic!("the reply should be the answer"),
    };
    let bytes = DNSClient::raw_response(answer, caller_tid);
    assert_eq!(&bytes[..2], &[0x00, 0x42]);
    assert_eq!(bytes, reply(&query));
}

#[test]
fn raw_query_that_does_not_parse_is_refused() {
    let client = DNSClient::new(vec![server(1)]);
    let (progress, caller_tid) = client.query_raw(&[0, 1, 2], true);
    assert!(matches!(progress, Progress::Failed(Error::Codec)));
    assert_eq!(caller_tid, None);
    let mut no_question = raw_query(7);
    no_question.truncate(12);
    no_question[5] = 0;
    assert!(matches!(client.query_raw(&no_question, false).0, Progress::Failed(Error::Codec)));
}

#[test]
fn raw_query_flagged_as_a_response_is_refused() {
    let client = DNSClient::new(vec![server(1)]);
    let mut query = raw_query(7);
    query[2] |= 0x80;
    let (progress, _) = client.query_raw(&query, false);
    match progress {
        Progress::Failed(error) => {
            assert_eq!(error, Error::NoQuestion);
            assert_eq!(error.kind(), ErrorKind::InvalidInput);
        }
        _ => panic!("a response is no query"),
    }
}

#[test]
fn message_without_a_question_is_refused() {
    let client = DNSClient::new(vec![server(1)]);
    let message = Message::from_parts(vec![0; 12], None, Vec::new()).unwrap();
    assert!(matches!(client.resolve(message), Progress::Failed(Error::NoQuestion)));
}

#[test]
fn message_needs_a_whole_header() {
    assert!(Message::from_parts(vec![0; 11], None, Vec::new()).is_none());
    assert!(Message::from_parts(vec![0; 12], None, Vec::new()).is_some());
}

#[test]
fn message_header_accessors() {
    let mut message = Message::decode(reply(&raw_query(0xa1b2))).unwrap();
    assert_eq!(message.tid(), 0xa1b2);
    assert!(message.is_response());
    assert!(!message.is_truncated());
    assert_eq!(message.answers().len(), 1);
    message.set_tid(0x0102);
    assert_eq!(message.tid(), 0x0102);
    assert_eq!(&message.wire()[..2], &[1, 2]);
    assert_eq!(&message.wire()[2..], &reply(&raw_query(0xa1b2))[2..]);
    let (wire, question, answers) = message.into_parts();
    assert_eq!(wire.len(), reply(&raw_query(0)).len());
    assert_eq!(question.unwrap().name, b"example.com".to_vec());
    assert_eq!(answers.len(), 1);
}

#[test]
fn decode_refuses_bytes_that_do_not_parse() {
    assert_eq!(Message::decode(vec![]).unwrap_err(), Error::Codec);
    let mut trailing = raw_query(1);
    trailing.push(0);
    assert_eq!(Message::decode(trailing).unwrap_err(), Error::Codec);
}

#[test]
fn error_kinds() {
    assert_eq!(Error::Codec.kind(), ErrorKind::InvalidInput);
    assert_eq!(Error::NoQuestion.kind(), ErrorKind::InvalidInput);
    assert_eq!(Error::NoResponse.kind(), ErrorKind::InvalidInput);
    assert_eq!(Error::InvalidRecord.kind(), ErrorKind::InvalidInput);
    assert_eq!(Error::UnexpectedResponse.kind(), ErrorKind::PermissionDenied);
    assert_eq!(Error::NoUpstreamServers.kind(), ErrorKind::NotFound);
    assert_eq!(TransportError::Timeout.kind(), ErrorKind::TimedOut);
    assert_eq!(TransportError::Connection.kind(), ErrorKind::ConnectionFailed);
    assert_eq!(TransportError::ResponseTooLarge.kind(), ErrorKind::InvalidData);
}

#[test]
fn addresses_compare_by_family_and_octets() {
    let a = IpAddress::V4([1, 2, 3, 4]);
    assert!(a.same(&IpAddress::V4([1, 2, 3, 4])));
    assert!(!a.same(&IpAddress::V4([1, 2, 3, 5])));
    assert!(!a.same(&IpAddress::V6([0; 16])));
    let mut octets = [7u8; 16];
    let b = IpAddress::V6(octets);
    assert!(b.same(&IpAddress::V6(octets)));
    octets[15] = 8;
    assert!(!b.same(&IpAddress::V6(octets)));
    assert!(a.is_v4());
    assert!(!b.is_v4());
}
