use dnsclient::{
    DNSClient, Error, ErrorKind, Exchange, IpAddress, Message, Progress, SocketAddress, Transport,
    TransportError, UpstreamServer,
};

fn server(last: u8) -> UpstreamServer {
    UpstreamServer::new(SocketAddress::new(IpAddress::V4([192, 0, 2, last]), 53))
}

fn server_v6(last: u8) -> UpstreamServer {
    let mut octets = [0u8; 16];
    octets[0] = 0x20;
    octets[1] = 0x01;
    octets[15] = last;
    UpstreamServer::new(SocketAddress::new(IpAddress::V6(octets), 53))
}

fn reply(query: &[u8], answers: &[(u16, u16, Vec<u8>)]) -> Vec<u8> {
    let mut wire = query.to_vec();
    wire[2] |= 0x80;
    wire[6] = (answers.len() >> 8) as u8;
    wire[7] = answers.len() as u8;
    for (rtype, class, rdata) in answers {
        wire.extend_from_slice(&[0xc0, 0x0c]);
        wire.extend_from_slice(&rtype.to_be_bytes());
        wire.extend_from_slice(&class.to_be_bytes());
        wire.extend_from_slice(&[0, 0, 0, 60]);
        wire.extend_from_slice(&(rdata.len() as u16).to_be_bytes());
        wire.extend_from_slice(rdata);
    }
    wire
}

fn address_reply(query: &[u8], last: u8) -> Vec<u8> {
    reply(query, &[(1, 1, vec![203, 0, 113, last])])
}

fn drive(
    mut progress: Progress,
    mut serve: impl FnMut(&Exchange, &[u8]) -> Result<Vec<u8>, TransportError>,
) -> (Result<Message, Error>, Vec<Exchange>) {
    let mut log = Vec::new();
    loop {
        match progress {
            Progress::Pending(resolution) => {
                let exchange = resolution.exchange();
                let outcome = serve(&exchange, resolution.query());
                log.push(exchange);
                progress = resolution.advance(outcome);
            }
            Progress::Answer(message) => return (Ok(message), log),
            Progress::Failed(error) => return (Err(error), log),
        }
    }
}

#[test]
fn first_server_answers() {
    let client = DNSClient::new(vec![server(1), server(2)]);
    let (result, log) = drive(client.query_a("example.com"), |_, query| Ok(address_reply(query, 7)));
    let answer = result.unwrap();
    assert_eq!(dnsclient::answers::addresses_v4(&answer), vec![[203, 0, 113, 7]]);
    assert_eq!(log.len(), 1);
    assert_eq!(log[0].server, server(1));
    assert_eq!(log[0].transport, Transport::Udp);
}

#[test]
fn failover_returns_the_second_servers_answer() {
    let client = DNSClient::new(vec![server(1), server(2), server(3)]);
    let (result, log) = drive(client.query_a("example.com"), |exchange, query| {
        if exchange.server == server(1) {
            Err(TransportError::Timeout)
        } else if exchange.server == server(2) {
            Ok(address_reply(query, 2))
        } else {
            Ok(address_reply(query, 3))
        }
    });
    let answer = result.unwrap();
    assert_eq!(dnsclient::answers::addresses_v4(&answer), vec![[203, 0, 113, 2]]);
    let consulted: Vec<UpstreamServer> = log.iter().map(|exchange| exchange.server).collect();
    assert_eq!(consulted, vec![server(1), server(2)]);
}

#[test]
fn every_server_failing_is_no_response() {
    let client = DNSClient::new(vec![server(1), server(2), server(3)]);
    let (result, log) = drive(client.query_a("example.com"), |exchange, _| {
        if exchange.server == server(2) {
            Err(TransportError::Connection)
        } else {
            Err(TransportError::Timeout)
        }
    });
    let error = result.unwrap_err();
    assert_eq!(error, Error::NoResponse);
    assert_eq!(error.kind(), ErrorKind::InvalidInput);
    let consulted: Vec<UpstreamServer> = log.iter().map(|exchange| exchange.server).collect();
    assert_eq!(consulted, vec![server(1), server(2), server(3)]);
}

#[test]
fn no_servers_is_no_response() {
    let client = DNSClient::new(vec![]);
    assert!(matches!(client.query_a("example.com"), Progress::Failed(Error::NoResponse)));
}

#[test]
fn truncated_udp_reply_is_retried_over_tcp_with_the_same_server() {
    let client = DNSClient::new(vec![server(1), server(2)]);
    let (result, log) = drive(client.query_a("example.com"), |exchange, query| {
        match exchange.transport {
            Transport::Udp => {
                let mut cut = address_reply(query, 1);
                cut[2] |= 0x02;
                Ok(cut)
            }
            Transport::Tcp => Ok(address_reply(query, 9)),
        }
    });
    let answer = result.unwrap();
    assert_eq!(dnsclient::answers::addresses_v4(&answer), vec![[203, 0, 113, 9]]);
    assert_eq!(log.len(), 2);
    assert_eq!((log[0].server, log[0].transport), (server(1), Transport::Udp));
    assert_eq!((log[1].server, log[1].transport), (server(1), Transport::Tcp));
}

#[test]
fn failed_tcp_retry_moves_to_the_next_server() {
    let client = DNSClient::new(vec![server(1), server(2)]);
    let (result, log) = drive(client.query_a("example.com"), |exchange, query| {
        if exchange.server == server(1) {
            match exchange.transport {
                Transport::Udp => {
                    let mut cut = address_reply(query, 1);
                    cut[2] |= 0x02;
                    Ok(cut)
                }
                Transport::Tcp => Err(TransportError::Connection),
            }
        } else {
            Ok(address_reply(query, 2))
        }
    });
    assert_eq!(dnsclient::answers::addresses_v4(&result.unwrap()), vec![[203, 0, 113, 2]]);
    let steps: Vec<(UpstreamServer, Transport)> =
        log.iter().map(|exchange| (exchange.server, exchange.transport)).collect();
    assert_eq!(
        steps,
        vec![(server(1), Transport::Udp), (server(1), Transport::Tcp), (server(2), Transport::Udp)]
    );
}

#[test]
fn truncated_tcp_reply_is_not_retried() {
    let client = DNSClient::new(vec![server(1)]);
    let (result, log) = drive(client.query_a("example.com"), |_, query| {
        let mut cut = address_reply(query, 4);
        cut[2] |= 0x02;
        Ok(cut)
    });
    assert_eq!(dnsclient::answers::addresses_v4(&result.unwrap()), vec![[203, 0, 113, 4]]);
    assert_eq!(log.len(), 2);
    assert_eq!(log[1].transport, Transport::Tcp);
}

#[test]
fn forced_tcp_skips_udp() {
    let mut client = DNSClient::new(vec![server(1), server(2)]);
    client.force_tcp(true);
    let (result, log) = drive(client.query_a("example.com"), |exchange, query| {
        if exchange.server == server(1) {
            Err(TransportError::ResponseTooLarge)
        } else {
            let mut cut = address_reply(query, 5);
            cut[2] |= 0x02;
            Ok(cut)
        }
    });
    assert_eq!(dnsclient::answers::addresses_v4(&result.unwrap()), vec![[203, 0, 113, 5]]);
    let steps: Vec<(UpstreamServer, Transport)> =
        log.iter().map(|exchange| (exchange.server, exchange.transport)).collect();
    assert_eq!(steps, vec![(server(1), Transport::Tcp), (server(2), Transport::Tcp)]);
}

#[test]
fn reply_with_another_transaction_id_is_rejected() {
    let client = DNSClient::new(vec![server(1), server(2)]);
    let mut sent = Vec::new();
    let (result, log) = drive(client.query_a("example.com"), |exchange, query| {
        sent = query.to_vec();
        let mut wire = address_reply(query, 6);
        if exchange.server == server(1) {
            wire[1] = wire[1].wrapping_add(1);
        }
        Ok(wire)
    });
    let answer = result.unwrap();
    assert_eq!(log.len(), 2);
    assert_eq!(log[1].server, server(2));
    assert_eq!(answer.tid(), u16::from_be_bytes([sent[0], sent[1]]));
}

#[test]
fn reply_with_another_question_is_rejected() {
    let client = DNSClient::new(vec![server(1)]);
    let other = match client.query_a("example.org") {
        Progress::Pending(resolution) => resolution.query().clone(),
        _ => panic!("the query should be pending"),
    };
    let (result, log) = drive(client.query_a("example.com"), |_, query| {
        let mut wire = address_reply(&other, 1);
        wire[0] = query[0];
        wire[1] = query[1];
        Ok(wire)
    });
    assert_eq!(result.unwrap_err(), Error::NoResponse);
    assert_eq!(log.len(), 1);
}

#[test]
fn reply_that_does_not_parse_is_this_servers_failure() {
    let client = DNSClient::new(vec![server(1), server(2)]);
    let (result, log) = drive(client.query_a("example.com"), |exchange, query| {
        if exchange.server == server(1) {
            Ok(vec![1, 2, 3])
        } else {
            Ok(address_reply(query, 8))
        }
    });
    assert_eq!(dnsclient::answers::addresses_v4(&result.unwrap()), vec![[203, 0, 113, 8]]);
    assert_eq!(log.len(), 2);
}

#[test]
fn answer_carries_the_querys_transaction_id_and_question() {
    let client = DNSClient::new(vec![server(1)]);
    let progress = client.query_a("Example.COM");
    let (tid, sent) = match &progress {
        Progress::Pending(resolution) => {
            let query = resolution.query();
            (u16::from_be_bytes([query[0], query[1]]), query.clone())
        }
        _ => panic!("the query should be pending"),
    };
    let (result, _) = drive(progress, |_, query| Ok(address_reply(query, 1)));
    let answer = result.unwrap();
    assert_eq!(answer.tid(), tid);
    let asked = Message::decode(sent).unwrap();
    assert_eq!(answer.question(), asked.question());
    let question = answer.question().clone().unwrap();
    assert_eq!(question.name, b"example.com".to_vec());
    assert_eq!(question.rtype, 1);
    assert_eq!(question.class, 1);
}

#[test]
fn local_address_follows_the_servers_family() {
    let mut client = DNSClient::new(vec![server_v6(1), server(2)]);
    let v4 = SocketAddress::new(IpAddress::V4([10, 0, 0, 1]), 4000);
    let v6 = SocketAddress::new(IpAddress::V6([0xfd; 16]), 6000);
    client.set_local_v4_addr(v4);
    client.set_local_v6_addr(v6);
    let (_, log) = drive(client.query_a("example.com"), |_, _| Err(TransportError::Timeout));
    assert_eq!(log.len(), 2);
    assert_eq!(log[0].local, v6);
    assert_eq!(log[1].local, v4);
}

#[test]
fn advance_with_takes_the_decoded_reply() {
    let client = DNSClient::new(vec![server(1), server(2)]);
    let resolution = match client.query_a("example.com") {
        Progress::Pending(resolution) => resolution,
        _ => panic!("the query should be pending"),
    };
    let good = Message::decode(address_reply(resolution.query(), 3)).unwrap();
    let next = match resolution.advance_with(None) {
        Progress::Pending(next) => next,
        _ => panic!("the second server should be asked"),
    };
    assert_eq!(next.exchange().server, server(2));
    match next.advance_with(Some(good)) {
        Progress::Answer(answer) => {
            assert_eq!(dnsclient::answers::addresses_v4(&answer), vec![[203, 0, 113, 3]])
        }
        _ => panic!("the reply should be the answer"),
    }
}

#[test]
fn validate_tells_a_mismatch() {
    let client = DNSClient::new(vec![server(1)]);
    let resolution = match client.query_a("example.com") {
        Progress::Pending(resolution) => resolution,
        _ => panic!("the query should be pending"),
    };
    let mut wire = address_reply(resolution.query(), 3);
    let good = Message::decode(wire.clone()).unwrap();
    assert!(resolution.validate(good).is_ok());
    wire[0] = wire[0].wrapping_add(1);
    let bad = Message::decode(wire).unwrap();
    let error = resolution.validate(bad).unwrap_err();
    assert_eq!(error, Error::UnexpectedResponse);
    assert_eq!(error.kind(), ErrorKind::PermissionDenied);
}
