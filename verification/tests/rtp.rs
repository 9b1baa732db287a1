use oxidesip::media::error::MediaError;
use oxidesip::media::rtp::RtpHeader;

fn sample_header() -> RtpHeader {
    RtpHeader {
        marker: true,
        payload_type: 0,
        sequence_number: 0x1234,
        timestamp: 0xDEAD_BEEF,
        ssrc: 0xCAFE_BABE,
    }
}

#[test]
fn round_trips_through_build_packet() {
    let header = sample_header();
    let payload = [1u8, 2, 3, 4, 5];
    let packet = header.build_packet(&payload);

    let (decoded, rest) = RtpHeader::decode(&packet).unwrap();
    assert_eq!(decoded, header);
    assert_eq!(rest, &payload);
}

#[test]
fn payload_type_masks_to_7_bits() {
    let header = RtpHeader {
        payload_type: 0xFF,
        ..sample_header()
    };
    let packet = header.build_packet(&[]);
    let (decoded, _) = RtpHeader::decode(&packet).unwrap();
    assert_eq!(decoded.payload_type, 0x7F);
}

#[test]
fn decode_skips_csrc_list() {
    let mut packet = sample_header().encode().to_vec();
    packet[0] |= 0x02; // two contributing sources
    packet.extend_from_slice(&[0u8; 8]);
    packet.extend_from_slice(&[9, 9, 9]);

    let (_, rest) = RtpHeader::decode(&packet).unwrap();
    assert_eq!(rest, &[9, 9, 9]);
}

#[test]
fn rejects_short_buffer() {
    assert!(matches!(
        RtpHeader::decode(&[0u8; 11]),
        Err(MediaError::RtpTooShort)
    ));
}

#[test]
fn rejects_bad_version() {
    let mut packet = sample_header().encode().to_vec();
    packet[0] = 0x00; // version 0
    assert!(matches!(
        RtpHeader::decode(&packet),
        Err(MediaError::RtpBadVersion(0))
    ));
}

#[test]
fn a_missing_csrc_list_is_too_short() {
    let mut packet = sample_header().encode().to_vec();
    packet[0] |= 0x0F;
    assert!(matches!(
        RtpHeader::decode(&packet),
        Err(MediaError::RtpTooShort)
    ));
}

#[test]
fn header_bytes_are_in_network_order() {
    assert_eq!(
        sample_header().encode(),
        [0x80, 0x80, 0x12, 0x34, 0xDE, 0xAD, 0xBE, 0xEF, 0xCA, 0xFE, 0xBA, 0xBE]
    );
}

#[test]
fn media_errors_are_told_in_words() {
    assert_eq!(MediaError::RtpTooShort.to_string(), "rtp packet too short");
    assert_ne!(
        MediaError::RtpBadVersion(1).to_string(),
        MediaError::RtpBadVersion(3).to_string()
    );
}
