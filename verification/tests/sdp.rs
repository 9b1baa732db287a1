use oxidesip::net::IpAddress;
use oxidesip::signaling::error::CoreError;
use oxidesip::signaling::sdp::{
    build_sdp, describe, generate_offer, offer_with_key, parse_offer, read_offer,
    select_payload_type, TELEPHONE_EVENT_PT,
};
use oxidesip::signaling::times::endless_time;

fn ip(a: u32, b: u32, c: u32, d: u32) -> IpAddress {
    IpAddress::V4((a << 24) | (b << 16) | (c << 8) | d)
}

#[test]
fn build_and_parse_round_trip_without_telephone_event() {
    let offer = generate_offer(10000, false, false, &[0, 8], false);
    let sdp = build_sdp(ip(127, 0, 0, 1), &offer);
    let parsed = parse_offer(&sdp.to_string()).unwrap();
    assert_eq!(parsed.payload_types, vec![0, 8]);
    assert_eq!(parsed.telephone_event_pt, None);
}

#[test]
fn build_and_parse_round_trip_with_telephone_event() {
    let offer = generate_offer(10000, false, false, &[0, 8], true);
    assert_eq!(offer.telephone_event_pt, Some(TELEPHONE_EVENT_PT));

    let sdp = build_sdp(ip(127, 0, 0, 1), &offer);
    let sdp_text = sdp.to_string();
    assert!(sdp_text.contains("a=rtpmap:101 telephone-event/8000"));
    assert!(sdp_text.contains("a=fmtp:101 0-15"));

    let parsed = parse_offer(&sdp_text).unwrap();
    assert_eq!(parsed.payload_types, vec![0, 8]);
    assert_eq!(parsed.telephone_event_pt, Some(TELEPHONE_EVENT_PT));
}

#[test]
fn parse_offer_handles_telephone_event_listed_first() {
    let sdp_text = "v=0\r\n\
        o=- 1 1 IN IP4 127.0.0.1\r\n\
        s=OxideSip\r\n\
        c=IN IP4 127.0.0.1\r\n\
        t=0 0\r\n\
        m=audio 10000 RTP/AVP 101 0 8\r\n\
        a=rtpmap:101 telephone-event/8000\r\n\
        a=fmtp:101 0-15\r\n\
        a=rtpmap:0 PCMU/8000\r\n\
        a=rtpmap:8 PCMA/8000\r\n";
    let parsed = parse_offer(sdp_text).unwrap();
    assert_eq!(parsed.payload_types, vec![0, 8]);
    assert_eq!(parsed.telephone_event_pt, Some(101));
}

#[test]
fn parse_offer_with_only_telephone_event_errors_as_empty_codec_list() {
    let sdp_text = "v=0\r\n\
        o=- 1 1 IN IP4 127.0.0.1\r\n\
        s=OxideSip\r\n\
        c=IN IP4 127.0.0.1\r\n\
        t=0 0\r\n\
        m=audio 10000 RTP/AVP 101\r\n\
        a=rtpmap:101 telephone-event/8000\r\n\
        a=fmtp:101 0-15\r\n";
    let err = parse_offer(sdp_text).unwrap_err();
    assert!(matches!(err, CoreError::Sdp(_)));
}

#[test]
fn sdes_srtp_offer_round_trips() {
    let local_addr = ip(192, 168, 1, 50);
    let offer = generate_offer(40000, true, false, &[0], false);
    let sdp_text = build_sdp(local_addr, &offer).to_string();

    let parsed = parse_offer(&sdp_text).expect("parse should succeed");

    assert_eq!(parsed.port, offer.port);
    assert_eq!(parsed.payload_types, offer.payload_types);
    assert_eq!(parsed.crypto_key, offer.crypto_key);
    assert!(parsed.crypto_key.is_some());
    let remote_addr = parsed.remote_addr.unwrap();
    assert_eq!((remote_addr.ip.as_str(), remote_addr.port), ("192.168.1.50", 40000));
}

#[test]
fn plain_rtp_offer_round_trips_without_crypto() {
    let local_addr = ip(192, 168, 1, 50);
    let offer = generate_offer(40002, false, false, &[0], false);
    let sdp_text = build_sdp(local_addr, &offer).to_string();

    assert!(!sdp_text.contains("a=crypto"));
    assert!(sdp_text.contains("RTP/AVP"));

    let parsed = parse_offer(&sdp_text).expect("parse should succeed");

    assert_eq!(parsed.port, offer.port);
    assert_eq!(parsed.payload_types, offer.payload_types);
    assert!(parsed.crypto_key.is_none());
}

#[test]
fn hold_offer_includes_sendonly_attribute() {
    let local_addr = ip(192, 168, 1, 50);
    let offer = generate_offer(40004, false, true, &[0], false);
    let sdp_text = build_sdp(local_addr, &offer).to_string();

    assert!(sdp_text.contains("a=sendonly"));

    let resumed = generate_offer(40004, false, false, &[0], false);
    let resumed_text = build_sdp(local_addr, &resumed).to_string();
    assert!(!resumed_text.contains("a=sendonly"));
}

#[test]
fn alaw_offer_advertises_pcma() {
    let local_addr = ip(192, 168, 1, 50);
    let offer = generate_offer(40006, false, false, &[8], false);
    let sdp_text = build_sdp(local_addr, &offer).to_string();

    assert!(sdp_text.contains("PCMA"));
    assert!(!sdp_text.contains("PCMU"));

    let parsed = parse_offer(&sdp_text).expect("parse should succeed");
    assert_eq!(parsed.payload_types, vec![8]);
}

#[test]
fn a_description_is_written_out_in_full() {
    let offer = offer_with_key(4000, None, false, &[0], true);
    let text = describe(ip(10, 0, 0, 1), 7, &offer).to_string();
    assert_eq!(
        text,
        "v=0\r\no=- 7 7 IN IP4 10.0.0.1\r\ns=OxideSip\r\nc=IN IP4 10.0.0.1\r\nt=0 0\r\n\
         m=audio 4000 RTP/AVP 0 101\r\na=rtpmap:0 PCMU/8000\r\na=rtpmap:101 telephone-event/8000\r\n\
         a=fmtp:101 0-15\r\n"
    );
}

#[test]
fn descriptions_over_ipv6_are_read_back() {
    let offer = generate_offer(4002, false, false, &[8, 0], true);
    let text = build_sdp(IpAddress::V6(1), &offer).to_string();
    assert!(text.contains("c=IN IP6 ::1\r\n"));
    let parsed = parse_offer(&text).unwrap();
    assert_eq!(parsed.remote_addr.unwrap().ip, "::1");
    assert_eq!(parsed.payload_types, vec![8, 0]);
}

#[test]
fn keys_are_written_in_base64() {
    let offer = offer_with_key(4000, Some([0u8; 30]), false, &[0], false);
    assert_eq!(offer.crypto_key.as_deref(), Some("AAAAAAAAAAAAAAAAAAAAAAAAAAAAAAAAAAAAAAAA"));
    let text = describe(ip(10, 0, 0, 1), 7, &offer).to_string();
    assert!(text.contains("RTP/SAVP"));
    assert!(text.contains("inline:AAAAAAAAAAAAAAAAAAAAAAAAAAAAAAAAAAAAAAAA"));
}

#[test]
fn two_offers_have_different_keys() {
    let a = generate_offer(4000, true, false, &[0], false);
    let b = generate_offer(4000, true, false, &[0], false);
    assert_ne!(a.crypto_key, b.crypto_key);
}

#[test]
fn the_best_common_codec_is_chosen() {
    assert_eq!(select_payload_type(&[8, 0], &[0, 8]), Some(0));
    assert_eq!(select_payload_type(&[8], &[0, 8]), Some(8));
    assert_eq!(select_payload_type(&[9], &[0, 8]), Some(9));
    assert_eq!(select_payload_type(&[], &[0, 8]), None);
}

#[test]
fn what_is_no_description_is_an_error() {
    assert!(matches!(parse_offer("hello"), Err(CoreError::Sdp(_))));
    assert!(matches!(read_offer(&vec![0xff, 0xfe]), Err(CoreError::Sdp(_))));
    let without_audio = "v=0\r\no=- 1 1 IN IP4 127.0.0.1\r\ns=x\r\nc=IN IP4 127.0.0.1\r\nt=0 0\r\n";
    assert!(matches!(parse_offer(without_audio), Err(CoreError::Sdp(_))));
}

#[test]
fn bodies_are_read_as_text() {
    let offer = generate_offer(4004, false, false, &[0], false);
    let body = build_sdp(ip(10, 0, 0, 2), &offer).to_string().into_bytes();
    assert_eq!(read_offer(&body).unwrap().port, 4004);
}

#[test]
fn endless_times_are_refused() {
    let text = "v=0\r\no=- 1 1 IN IP4 127.0.0.1\r\ns=x\r\nc=IN IP4 127.0.0.1\r\nt=0 0\r\n\
        r=99999999999999999 0 0\r\nm=audio 4000 RTP/AVP 0\r\n";
    assert!(endless_time(text));
    assert!(matches!(read_offer(&text.as_bytes().to_vec()), Err(CoreError::Sdp(_))));
    assert!(!endless_time("t=0 0\r\n"));
}

#[test]
fn only_times_that_overflow_are_endless() {
    let endless = |lines: &str| endless_time(&format!("v=0\r\nt=0 0\r\n{lines}\r\n"));
    assert!(!endless("r=9223372036854775 0 0"));
    assert!(endless("r=9223372036854776 0 0"));
    assert!(!endless("r=0 -9223372036854775 0"));
    assert!(endless("r=0 -9223372036854776 0"));
    assert!(!endless("r=0 0 153722867280912m"));
    assert!(endless("r=0 0 153722867280913m"));
    assert!(!endless("r=0 106751991167d"));
    assert!(endless("r=1 1 1\r\nr=0 106751991168d"));
    assert!(endless_time("t=0 0\nr=0 106751991168d\n"));
    assert!(!endless("r=99999999999999999999 0 0"));
    assert!(!endless("z=9999999999999999999 0"));
    assert!(endless("z=0 9999999999999999"));
    assert!(endless("z=0 1\r\nt=0 0\r\nr=0 9999999999999999 0"));
    assert!(!endless("a=9999999999999999 0"));
    assert!(!endless("a=x\r\nr=0 9999999999999999 0"));
    assert!(!endless_time("r=0 9999999999999999 0\r\n"));
    assert!(!endless_time("s=x\nt=0 0\nr=0 9999999999999999 0\r\nt=0 0\r\n"));

    let with = |line: &str| {
        format!(
            "v=0\r\no=- 1 1 IN IP4 127.0.0.1\r\ns=x\r\nc=IN IP4 127.0.0.1\r\nt=0 0\r\n{line}\r\n\
             m=audio 4000 RTP/AVP 0\r\n"
        )
    };
    let read = |line: &str| read_offer(&with(line).into_bytes());
    assert_eq!(read("r=9223372036854775 1h 0 25h").unwrap().port, 4000);
    assert_eq!(read("r=7d 153722867280912m 0").unwrap().port, 4000);
    assert_eq!(read("z=9999999999999999999 -106751991167d").unwrap().port, 4000);
    assert!(read("r=9223372036854776 0 0").is_err());
    assert!(read("z=0 -106751991168d").is_err());
    assert!(read("r=99999999999999999999 0 0").is_err());
    let trailing = with("r=1 1 1") + "t=0 0\r\nr=9223372036854776 0 0\r\n";
    assert_eq!(read_offer(&trailing.into_bytes()).unwrap().port, 4000);
}
