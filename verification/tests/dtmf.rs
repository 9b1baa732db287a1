use oxidesip::media::dtmf::{
    can_send_event, digit_to_event_code, encode_telephone_event, event_code_to_digit, DtmfEventState,
    DtmfSend, DTMF_END_PACKET_REPEATS,
};
use oxidesip::media::rtp::RtpHeader;

#[test]
fn digit_event_code_round_trips() {
    for digit in "0123456789*#ABCD".chars() {
        let code = digit_to_event_code(digit).unwrap();
        assert_eq!(event_code_to_digit(code), Some(digit));
    }
    assert_eq!(digit_to_event_code('a'), digit_to_event_code('A'));
    assert!(digit_to_event_code('x').is_none());
}

fn drive_event(state: &mut DtmfEventState, packets: usize) -> Vec<(bool, bool, u16)> {
    let mut seq = 0u16;
    let mut out = Vec::new();
    for _ in 0..packets {
        let marker_before = !state.marker_sent;
        let (packet, done) = state.next_packet(101, 0xdead_beef, &mut seq);
        let (header, _) = RtpHeader::decode(&packet).unwrap();
        assert_eq!(header.marker, marker_before);
        out.push((marker_before, done, state.elapsed_ticks as u16));
    }
    out
}

#[test]
fn dtmf_event_marker_only_on_first_packet() {
    let mut state = DtmfEventState::new(
        DtmfSend { digit: '5', duration_ms: 250 },
        1000,
    );
    let results = drive_event(&mut state, 3);
    assert!(results[0].0, "marker must be set on the first packet");
    assert!(!results[1].0, "marker must not repeat on later packets");
    assert!(!results[2].0);
}

#[test]
fn dtmf_event_timestamp_stays_frozen_across_packets() {
    let mut state = DtmfEventState::new(
        DtmfSend { digit: '5', duration_ms: 250 },
        42_000,
    );
    let mut seq = 0u16;
    for _ in 0..5 {
        let (packet, _) = state.next_packet(101, 1, &mut seq);
        assert_eq!(state.start_timestamp, 42_000);
        assert_eq!(RtpHeader::decode(&packet).unwrap().0.timestamp, 42_000);
    }
}

#[test]
fn dtmf_event_sends_end_packet_exactly_three_times() {
    let mut state = DtmfEventState::new(
        DtmfSend { digit: '5', duration_ms: 250 },
        0,
    );
    let mut seq = 0u16;
    let mut done_at = None;
    for i in 1..=20 {
        let (_, done) = state.next_packet(101, 1, &mut seq);
        if done {
            done_at = Some(i);
            break;
        }
    }
    assert_eq!(state.end_packets_sent, DTMF_END_PACKET_REPEATS);
    assert!(done_at.is_some(), "event never completed");
    assert_eq!(done_at, Some(15));
}

#[test]
fn dtmf_event_zero_duration_still_completes() {
    let mut state = DtmfEventState::new(DtmfSend { digit: '1', duration_ms: 0 }, 0);
    let mut seq = 0u16;
    let mut completed = false;
    for _ in 0..(DTMF_END_PACKET_REPEATS as usize + 1) {
        if state.next_packet(101, 1, &mut seq).1 {
            completed = true;
            break;
        }
    }
    assert!(completed);
}

#[test]
fn event_payload_is_laid_out_as_sent() {
    assert_eq!(encode_telephone_event(11, true, 10, 0x1234), [11, 0x80 | 10, 0x12, 0x34]);
    assert_eq!(encode_telephone_event(5, false, 10, 160), [5, 10, 0, 160]);
}

#[test]
fn events_need_a_peer_that_takes_them() {
    assert!(can_send_event(Some(101), '5'));
    assert!(!can_send_event(None, '5'));
    assert!(!can_send_event(Some(101), 'x'));
}
