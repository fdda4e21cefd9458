use window_warp::mpegts::{
    append_crc32, crc32_mpeg2, encode_pcr, encode_timestamp, TsMuxer, PAT_PID, PMT_PID, SYNC_BYTE,
    TS_PACKET_LEN, VIDEO_PID,
};

fn pid(packet: &[u8]) -> u16 {
    (((packet[1] & 0x1f) as u16) << 8) | packet[2] as u16
}

#[test]
fn packets_are_aligned_and_tagged() {
    let mut muxer = TsMuxer::new();
    let mut out = Vec::new();
    let au: Vec<u8> = (0..1000u32).map(|i| i as u8).collect();
    muxer.push_access_unit(&au, 90_000, true, &mut out);

    assert_eq!(out.len() % TS_PACKET_LEN, 0);
    let packets: Vec<&[u8]> = out.chunks(TS_PACKET_LEN).collect();
    assert!(packets.iter().all(|packet| packet[0] == SYNC_BYTE));
    assert_eq!(pid(packets[0]), PAT_PID);
    assert_eq!(pid(packets[1]), PMT_PID);
    assert!(packets[2..].iter().all(|packet| pid(packet) == VIDEO_PID));
    assert_eq!(packets[2][1] & 0x40, 0x40, "payload unit start indicator");
}

#[test]
fn continuity_counter_increments_per_pid() {
    let mut muxer = TsMuxer::new();
    let mut out = Vec::new();
    for frame in 0..4 {
        muxer.push_access_unit(&[0u8; 400], frame * 1500, frame == 0, &mut out);
    }

    let mut expected = 0u8;
    for packet in out.chunks(TS_PACKET_LEN) {
        if pid(packet) != VIDEO_PID {
            continue;
        }
        assert_eq!(packet[3] & 0x0f, expected);
        expected = (expected + 1) & 0x0f;
    }
}

#[test]
fn short_access_unit_is_padded_into_one_packet() {
    let mut muxer = TsMuxer::new();
    let mut out = Vec::new();
    muxer.push_access_unit(&[0u8; 8], 0, false, &mut out);

    let packets: Vec<&[u8]> = out.chunks(TS_PACKET_LEN).collect();
    assert_eq!(packets.len(), 3, "PAT, PMT and one video packet");
    let video = packets[2];
    assert_eq!(video[3] & 0x30, 0x30, "adaptation field and payload");
    assert_eq!(video[4] as usize, TS_PACKET_LEN - 5 - 14 - 8);
}

#[test]
fn timestamps_round_trip() {
    let pts = 0x1_2345_6789u64;
    let encoded = encode_timestamp(0b0010, pts);
    let decoded = (((encoded[0] >> 1) & 0x07) as u64) << 30
        | (encoded[1] as u64) << 22
        | ((encoded[2] >> 1) as u64) << 15
        | (encoded[3] as u64) << 7
        | (encoded[4] >> 1) as u64;
    assert_eq!(decoded, pts);
}

#[test]
fn crc_matches_reference_vector() {
    // Table based reference value for the standard "123456789" vector.
    assert_eq!(crc32_mpeg2(b"123456789"), 0x0376_e6e7);
}

#[test]
fn default_muxer_is_a_new_one() {
    let mut out = Vec::new();
    TsMuxer::default().push_access_unit(&[1, 2, 3], 0, false, &mut out);
    let mut expected = Vec::new();
    TsMuxer::new().push_access_unit(&[1, 2, 3], 0, false, &mut expected);
    assert_eq!(out, expected);
}

#[test]
fn empty_access_unit_writes_nothing() {
    let mut muxer = TsMuxer::new();
    let mut out = vec![9u8];
    muxer.push_access_unit(&[], 0, true, &mut out);
    assert_eq!(out, [9u8]);
    // Nothing was counted either: the tables are still to come.
    muxer.push_access_unit(&[1], 0, false, &mut out);
    assert_eq!(out.len(), 1 + 3 * TS_PACKET_LEN);
    assert_eq!(out[1 + 3] & 0x0f, 0);
}

#[test]
fn tables_have_their_exact_bytes() {
    let mut out = Vec::new();
    TsMuxer::new().push_access_unit(&[1], 0, false, &mut out);

    let pat = &out[..TS_PACKET_LEN];
    assert_eq!(
        pat[..21],
        [
            0x47, 0x40, 0x00, 0x10, 0x00, 0x00, 0xb0, 0x0d, 0x00, 0x01, 0xc1, 0x00, 0x00, 0x00,
            0x01, 0xf0, 0x00, 0x2a, 0xb1, 0x04, 0xb2
        ]
    );
    assert!(pat[21..].iter().all(|byte| *byte == 0xff));

    let pmt = &out[TS_PACKET_LEN..2 * TS_PACKET_LEN];
    assert_eq!(
        pmt[..26],
        [
            0x47, 0x50, 0x00, 0x10, 0x00, 0x02, 0xb0, 0x12, 0x00, 0x01, 0xc1, 0x00, 0x00, 0xe1,
            0x00, 0xf0, 0x00, 0x1b, 0xe1, 0x00, 0xf0, 0x00, 0x15, 0xbd, 0x4d, 0x56
        ]
    );
    assert!(pmt[26..].iter().all(|byte| *byte == 0xff));
}

#[test]
fn tables_pass_their_crc_check() {
    let mut out = Vec::new();
    TsMuxer::new().push_access_unit(&[1], 0, false, &mut out);
    assert_eq!(crc32_mpeg2(&out[5..21]), 0);
    let pmt = &out[TS_PACKET_LEN..];
    assert_eq!(crc32_mpeg2(&pmt[5..26]), 0);
}

#[test]
fn crc_of_nothing_is_the_initial_value() {
    assert_eq!(crc32_mpeg2(&[]), 0xffff_ffff);
    let mut section = Vec::new();
    append_crc32(&mut section);
    assert_eq!(section, [0xff, 0xff, 0xff, 0xff]);
}

#[test]
fn closed_section_checks_to_zero() {
    let mut section = b"123456789".to_vec();
    append_crc32(&mut section);
    assert_eq!(section[9..], [0x03, 0x76, 0xe6, 0xe7]);
    assert_eq!(crc32_mpeg2(&section), 0);
}

#[test]
fn key_frame_carries_the_clock_reference() {
    let mut out = Vec::new();
    TsMuxer::new().push_access_unit(&[0u8; 400], 108_000, true, &mut out);
    let video = &out[2 * TS_PACKET_LEN..3 * TS_PACKET_LEN];
    assert_eq!(video[..6], [0x47, 0x41, 0x00, 0x30, 0x07, 0x50]);
    assert_eq!(video[6..12], encode_pcr(108_000 - 18_000));
    assert_eq!(
        video[12..21],
        [0x00, 0x00, 0x01, 0xe0, 0x00, 0x00, 0x84, 0x80, 0x05]
    );
    assert_eq!(video[21..26], encode_timestamp(0b0010, 108_000));

    // Only the first packet of the unit does.
    let second = &out[3 * TS_PACKET_LEN..4 * TS_PACKET_LEN];
    assert_eq!(second[..4], [0x47, 0x01, 0x00, 0x11]);
}

#[test]
fn clock_reference_does_not_go_below_zero() {
    let mut out = Vec::new();
    TsMuxer::new().push_access_unit(&[0u8; 400], 17_999, true, &mut out);
    let video = &out[2 * TS_PACKET_LEN..];
    assert_eq!(video[6..12], encode_pcr(0));
}

#[test]
fn short_key_frame_flags_its_clock_reference() {
    let mut out = Vec::new();
    TsMuxer::new().push_access_unit(&[0u8; 8], 18_000, true, &mut out);
    assert_eq!(out.len(), 3 * TS_PACKET_LEN);
    let video = &out[376..564];
    assert_eq!(video[5] & 0x50, 0x50);
    assert_eq!(video[6..12], [0, 0, 0, 0, 0x7e, 0]);
}

#[test]
fn receiver_reads_the_clock_of_every_key_frame() {
    let mut muxer = TsMuxer::new();
    let mut out = Vec::new();
    for frame in 0..6u64 {
        muxer.push_access_unit(&[7u8; 700], 90_000 + frame * 1500, frame % 3 == 0, &mut out);
    }
    let mut clocks = Vec::new();
    for packet in out.chunks(TS_PACKET_LEN) {
        let has_field = packet[3] & 0x20 != 0 && packet[4] > 0;
        if has_field && packet[5] & 0x10 != 0 {
            assert_eq!(pid(packet), VIDEO_PID);
            clocks.push(packet[6..12].to_vec());
        }
    }
    assert_eq!(clocks, [encode_pcr(72_000).to_vec(), encode_pcr(76_500).to_vec()]);
}

#[test]
fn table_counters_wrap() {
    let mut muxer = TsMuxer::new();
    for frame in 0..600u64 {
        let mut out = Vec::new();
        muxer.push_access_unit(&[1], frame, true, &mut out);
        assert_eq!(out[3], 0x10 | (frame % 16) as u8);
        assert_eq!(out[TS_PACKET_LEN + 3], 0x10 | (frame % 16) as u8);
    }
}

#[test]
fn clock_references_round_trip() {
    let pcr = 0x1_2345_6789u64;
    let bytes = encode_pcr(pcr);
    let decoded = (bytes[0] as u64) << 25
        | (bytes[1] as u64) << 17
        | (bytes[2] as u64) << 9
        | (bytes[3] as u64) << 1
        | (bytes[4] >> 7) as u64;
    assert_eq!(decoded, pcr);
    assert_eq!(bytes[4] & 0x7f, 0x7e);
    assert_eq!(bytes[5], 0);
}

#[test]
fn timestamps_wrap_at_33_bits() {
    assert_eq!(
        encode_timestamp(0b0010, 0x2_0000_0005),
        encode_timestamp(0b0010, 5)
    );
    assert_eq!(encode_timestamp(0b0010, 0), [0x21, 0x00, 0x01, 0x00, 0x01]);
    assert_eq!(encode_pcr(0x2_0000_0005), encode_pcr(5));
    assert_eq!(encode_pcr(0), [0x00, 0x00, 0x00, 0x00, 0x7e, 0x00]);
}

#[test]
fn tables_repeat_every_tenth_of_a_second() {
    let mut muxer = TsMuxer::new();
    let mut tables = Vec::new();
    for pts in [0u64, 8_999, 9_000, 17_999, 18_000] {
        let mut out = Vec::new();
        muxer.push_access_unit(&[1], pts, false, &mut out);
        tables.push(pid(&out) == PAT_PID);
    }
    assert_eq!(tables, [true, false, true, false, true]);

    let mut out = Vec::new();
    muxer.push_access_unit(&[1], 18_001, true, &mut out);
    assert_eq!(pid(&out), PAT_PID, "before every key frame");
}

#[test]
fn payload_that_just_fits_has_no_adaptation_field() {
    // 14 bytes of PES header and 170 of data fill one packet.
    let mut out = Vec::new();
    TsMuxer::new().push_access_unit(&[7u8; 170], 0, false, &mut out);
    assert_eq!(out.len(), 3 * TS_PACKET_LEN);
    let video = &out[2 * TS_PACKET_LEN..];
    assert_eq!(video[3], 0x10);
    assert_eq!(video[18..], [7u8; 170]);
}

#[test]
fn payload_short_of_one_byte_gets_an_empty_adaptation_field() {
    let mut out = Vec::new();
    TsMuxer::new().push_access_unit(&[7u8; 169], 0, false, &mut out);
    let video = &out[2 * TS_PACKET_LEN..];
    assert_eq!(video[3], 0x30);
    assert_eq!(video[4], 0);
    assert_eq!(video[19..], [7u8; 169]);
}

#[test]
fn access_units_come_out_of_the_stream_again() {
    let units: Vec<Vec<u8>> = vec![
        (0..1000u32).map(|i| i as u8).collect(),
        vec![1, 2, 3],
        (0..368u32).map(|i| (i * 7) as u8).collect(),
    ];
    let mut muxer = TsMuxer::new();
    let mut out = Vec::new();
    for (i, unit) in units.iter().enumerate() {
        muxer.push_access_unit(unit, i as u64 * 1500, i == 0, &mut out);
    }

    let mut received: Vec<Vec<u8>> = Vec::new();
    for packet in out.chunks(TS_PACKET_LEN) {
        if pid(packet) != VIDEO_PID {
            continue;
        }
        let start = if packet[3] & 0x20 != 0 {
            5 + packet[4] as usize
        } else {
            4
        };
        if packet[1] & 0x40 != 0 {
            received.push(Vec::new());
        }
        received.last_mut().unwrap().extend_from_slice(&packet[start..]);
    }
    let received: Vec<Vec<u8>> = received.iter().map(|pes| pes[14..].to_vec()).collect();
    assert_eq!(received, units);
}
