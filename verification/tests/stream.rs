use window_warp::encoder::EncodedFrame;
use window_warp::mpegts::{SYNC_BYTE, TS_PACKET_LEN};
use window_warp::session::send_pending;
use window_warp::stream::{
    needs_second_lookup, parse_udp_url, udp_authority, SocketAddress, SocketMode, StreamUrlError,
    UdpStream, DATAGRAM_LEN,
};

fn v4(octets: [u8; 4], port: u16) -> SocketAddress {
    SocketAddress::V4 { octets, port }
}

fn v6(first: u16, port: u16) -> SocketAddress {
    SocketAddress::V6 {
        segments: [first, 0, 0, 0, 0, 0, 0, 1],
        port,
        flow_info: 0,
        scope_id: 0,
    }
}

fn open() -> UdpStream {
    let found = Some(vec![v4([239, 0, 0, 1], 5004)]);
    UdpStream::open("udp://239.0.0.1:5004", &found, &None).unwrap()
}

/// Sends what is due, as the socket would get it.
fn send(stream: &mut UdpStream, sent: &mut Vec<Vec<u8>>) {
    let mut offset = 0;
    while let Some(datagram) = stream.next_datagram(offset) {
        sent.push(datagram.to_vec());
        offset += datagram.len();
    }
    stream.drain_sent(offset);
}

#[test]
fn parses_plain_and_ffmpeg_style_urls() {
    let found = Some(vec![v4([239, 0, 0, 1], 5004)]);
    assert_eq!(udp_authority("udp://239.0.0.1:5004").unwrap(), "239.0.0.1:5004");
    assert_eq!(
        parse_udp_url("udp://239.0.0.1:5004", &found, &None).unwrap(),
        v4([239, 0, 0, 1], 5004)
    );
    assert_eq!(udp_authority("udp://@239.0.0.1:5004/").unwrap(), "239.0.0.1:5004");
    assert_eq!(
        parse_udp_url("udp://@239.0.0.1:5004/", &found, &None).unwrap(),
        v4([239, 0, 0, 1], 5004)
    );
}

#[test]
fn rejects_other_schemes_and_missing_ports() {
    let found = Some(vec![v4([239, 0, 0, 1], 5004)]);
    assert!(parse_udp_url("rtp://239.0.0.1:5004", &found, &None).is_err());
    // An address without a port does not resolve.
    assert!(parse_udp_url("udp://239.0.0.1", &None, &None).is_err());
}

#[test]
fn every_refusal_has_its_reason() {
    let found = Some(vec![v4([10, 0, 0, 1], 5004)]);
    assert_eq!(
        parse_udp_url("rtp://10.0.0.1:5004", &found, &None),
        Err(StreamUrlError::NotUdp)
    );
    assert_eq!(
        parse_udp_url("udp://10.0.0.1", &None, &found),
        Err(StreamUrlError::Unresolved)
    );
    assert_eq!(
        parse_udp_url("udp://nowhere:1", &Some(vec![]), &Some(vec![])),
        Err(StreamUrlError::NoAddress)
    );
    assert_eq!(
        parse_udp_url("udp://nowhere:1", &Some(vec![]), &None),
        Err(StreamUrlError::NoAddress)
    );
    assert_eq!(
        parse_udp_url("udp://10.0.0.1:0", &Some(vec![v4([10, 0, 0, 1], 0)]), &None),
        Err(StreamUrlError::NoPort)
    );
    assert!(matches!(
        UdpStream::open("http://10.0.0.1:1", &found, &None),
        Err(StreamUrlError::NotUdp)
    ));
}

#[test]
fn scheme_has_to_be_whole_and_lower_case() {
    for url in ["", "udp:/", "udp:/x", "UDP://host:1", " udp://host:1"] {
        assert_eq!(udp_authority(url), Err(StreamUrlError::NotUdp));
    }
    assert_eq!(udp_authority("udp://").unwrap(), "");
}

#[test]
fn authority_loses_trailing_slashes_and_every_at() {
    assert_eq!(udp_authority("udp://a@b@c:1//").unwrap(), "abc:1");
    assert_eq!(udp_authority("udp://a/b:1/").unwrap(), "a/b:1");
    // Slashes behind an at sign are trailing ones, those before it are not.
    assert_eq!(udp_authority("udp://host:1/@").unwrap(), "host:1/");
    assert_eq!(udp_authority("udp://@host:1/").unwrap(), udp_authority("udp://host:1").unwrap());
}

#[test]
fn ipv4_addresses_come_first() {
    let both = vec![v6(0xfd00, 1), v4([10, 0, 0, 1], 1), v4([10, 0, 0, 2], 1)];
    assert!(!needs_second_lookup(&both));
    assert_eq!(
        parse_udp_url("udp://host:1", &Some(both), &Some(vec![v6(0xfd01, 1)])),
        Ok(v4([10, 0, 0, 1], 1))
    );

    let only_v6 = vec![v6(0xfd00, 1)];
    assert!(needs_second_lookup(&only_v6));
    assert_eq!(
        parse_udp_url("udp://host:1", &Some(only_v6), &Some(vec![v6(0xfd01, 1), v6(0xfd02, 1)])),
        Ok(v6(0xfd01, 1))
    );
}

#[test]
fn sockets_are_set_up_for_their_destination() {
    assert_eq!(v4([239, 0, 0, 1], 1).socket_mode(), SocketMode::Multicast);
    assert_eq!(v4([224, 0, 0, 0], 1).socket_mode(), SocketMode::Multicast);
    assert_eq!(v4([240, 0, 0, 1], 1).socket_mode(), SocketMode::Broadcast);
    assert_eq!(v4([192, 168, 1, 42], 1).socket_mode(), SocketMode::Broadcast);
    assert_eq!(v6(0xff02, 1).socket_mode(), SocketMode::Multicast);
    assert_eq!(v6(0xfd00, 1).socket_mode(), SocketMode::Plain);
}

#[test]
fn datagrams_hold_seven_packets() {
    assert_eq!(DATAGRAM_LEN, 1316);
    let mut stream = open();
    assert_eq!(stream.destination(), v4([239, 0, 0, 1], 5004));

    let mut sent = Vec::new();
    // PAT, PMT and eight video packets.
    stream.send_access_unit(&[5u8; 8 * 184 - 14], 0, false);
    send(&mut stream, &mut sent);
    assert_eq!(sent.len(), 1);
    assert_eq!(sent[0].len(), DATAGRAM_LEN);
    assert!(sent[0].chunks(TS_PACKET_LEN).all(|packet| packet[0] == SYNC_BYTE));

    let rest = stream.flush().unwrap().to_vec();
    assert_eq!(rest.len(), 3 * TS_PACKET_LEN);
    stream.drain_sent(rest.len());
    assert!(stream.flush().is_none());
}

#[test]
fn flush_hands_out_one_datagram_at_a_time() {
    let mut stream = open();
    // PAT, PMT and sixteen video packets: two full datagrams and four packets.
    stream.send_access_unit(&[5u8; 16 * 184 - 14], 0, false);
    let mut muxer = window_warp::mpegts::TsMuxer::new();
    let mut expected = Vec::new();
    muxer.push_access_unit(&[5u8; 16 * 184 - 14], 0, false, &mut expected);

    let mut sent: Vec<Vec<u8>> = Vec::new();
    while let Some(datagram) = stream.flush() {
        sent.push(datagram.to_vec());
        let len = datagram.len();
        stream.drain_sent(len);
    }
    let lengths: Vec<usize> = sent.iter().map(|datagram| datagram.len()).collect();
    assert_eq!(lengths, [DATAGRAM_LEN, DATAGRAM_LEN, 4 * TS_PACKET_LEN]);
    assert_eq!(sent.concat(), expected);
    assert!(stream.flush().is_none());
}

#[test]
fn flush_of_exactly_one_datagram_is_full() {
    let mut stream = open();
    // PAT, PMT and five video packets.
    stream.send_access_unit(&[5u8; 5 * 184 - 14], 0, false);
    assert_eq!(stream.flush().unwrap().len(), DATAGRAM_LEN);
    stream.drain_sent(DATAGRAM_LEN);
    assert!(stream.flush().is_none());
}

#[test]
fn datagrams_put_together_are_the_stream() {
    let mut stream = open();
    let mut muxer = window_warp::mpegts::TsMuxer::new();
    let mut expected = Vec::new();
    let mut sent = Vec::new();
    for frame in 0..20u64 {
        let unit = vec![frame as u8; 300 * frame as usize + 1];
        stream.send_access_unit(&unit, frame * 1500, frame % 8 == 0);
        muxer.push_access_unit(&unit, frame * 1500, frame % 8 == 0, &mut expected);
        send(&mut stream, &mut sent);
    }
    assert!(sent.iter().all(|datagram| datagram.len() == DATAGRAM_LEN));
    if let Some(rest) = stream.flush() {
        assert!(rest.len() < DATAGRAM_LEN);
        sent.push(rest.to_vec());
    }
    assert_eq!(sent.concat(), expected);
}

#[test]
fn pending_frames_are_timed_on_the_stream_clock() {
    let frame = EncodedFrame {
        data: vec![1, 2, 3],
        time_100ns: 10_000_000,
        keyframe: true,
    };
    let mut stream = open();
    send_pending(&mut stream, &frame);
    let mut expected = open();
    expected.send_access_unit(&[1, 2, 3], 90_000, true);
    assert_eq!(stream.flush().unwrap(), expected.flush().unwrap());
}
