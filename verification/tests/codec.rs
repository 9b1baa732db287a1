use oxidesip::media::codec::{
    alaw_decode, alaw_encode, build_alaw_decode_table, build_decode_table, ulaw_decode, ulaw_encode,
    Codec,
};

#[test]
fn round_trip_bounded_error() {
    let table = build_decode_table();
    let mut max_err = 0i32;
    let mut sample = i16::MIN;
    loop {
        let code = ulaw_encode(&table, sample);
        let decoded = ulaw_decode(code);
        max_err = max_err.max((decoded as i32 - sample as i32).abs());

        if sample == i16::MAX {
            break;
        }
        sample = sample.saturating_add(37);
    }
    assert!(max_err < 700, "max round-trip error too large: {max_err}");
    assert_eq!(max_err, 644);
}

#[test]
fn silence_round_trips_near_zero() {
    let table = build_decode_table();
    let code = ulaw_encode(&table, 0);
    let decoded = ulaw_decode(code);
    assert!(decoded.abs() < 10);
}

#[test]
fn decode_table_matches_direct_decode() {
    let table = build_decode_table();
    for code in 0u8..=255 {
        assert_eq!(table[code as usize], ulaw_decode(code));
    }
}

#[test]
fn alaw_round_trip_bounded_error() {
    let table = build_alaw_decode_table();
    let mut max_err = 0i32;
    let mut sample = i16::MIN;
    loop {
        let code = alaw_encode(&table, sample);
        let decoded = alaw_decode(code);
        max_err = max_err.max((decoded as i32 - sample as i32).abs());

        if sample == i16::MAX {
            break;
        }
        sample = sample.saturating_add(37);
    }
    assert!(max_err < 700, "max round-trip error too large: {max_err}");
}

#[test]
fn alaw_silence_round_trips_near_zero() {
    let table = build_alaw_decode_table();
    let code = alaw_encode(&table, 0);
    let decoded = alaw_decode(code);
    assert!(decoded.abs() < 10);
}

#[test]
fn alaw_decode_table_matches_direct_decode() {
    let table = build_alaw_decode_table();
    for code in 0u8..=255 {
        assert_eq!(table[code as usize], alaw_decode(code));
    }
}

#[test]
fn decoded_values_are_known() {
    assert_eq!(ulaw_decode(0xFF), 0);
    assert_eq!(ulaw_decode(0x00), -32124);
    assert_eq!(ulaw_decode(0x80), 32124);
    assert_eq!(alaw_decode(0xD5), 8);
    assert_eq!(alaw_decode(0x55), -8);
    assert_eq!(alaw_decode(0xAA), 32256);
}

#[test]
fn decoded_samples_come_back_unchanged() {
    for codec in [Codec::Ulaw, Codec::Alaw] {
        let table = codec.build_decode_table();
        for code in 0u8..=255 {
            let sample = codec.decode(code);
            assert_eq!(codec.decode(codec.encode(&table, sample)), sample);
        }
    }
}

#[test]
fn codec_follows_the_payload_type() {
    assert_eq!(Codec::from_payload_type(8), Codec::Alaw);
    assert_eq!(Codec::from_payload_type(0), Codec::Ulaw);
    assert_eq!(Codec::from_payload_type(101), Codec::Ulaw);
}
