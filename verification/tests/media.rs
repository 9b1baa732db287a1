use oxidesip::media::codec::Codec;
use oxidesip::media::devices::{
    list_app_capture_streams, list_app_playback_streams, list_input_devices, list_output_devices,
    NodeProps,
};
use oxidesip::media::playback::{
    capture, captured_samples, may_play, peak_of, samples_to_discard, Playback,
    MAX_BUFFERED_SAMPLES, PREBUFFER_SAMPLES, TARGET_BUFFERED_SAMPLES,
};
use oxidesip::media::receiver::{Receiver, Reception};
use oxidesip::media::record::{wav_bytes, RecordChannel, RecordMixer, Recorder};
use oxidesip::media::ring::{audio_ring, conference_bridge, pop_from, push_to};
use oxidesip::media::rtp::RtpHeader;
use oxidesip::media::sender::{mix_into, Sender};
use oxidesip::media::tone::{
    dtmf_frequencies, generate_dial_tone, player_arguments, samples_to_bytes, DtmfTonePlayer,
    QueuedSound, ToneStep,
};
use oxidesip::net::IpAddress;

const PEER: IpAddress = IpAddress::V4(0x0a00_0001);
const STRANGER: IpAddress = IpAddress::V4(0x0a00_0002);

#[test]
fn what_goes_into_a_ring_comes_out() {
    let (sink, source) = audio_ring();
    let mut sink = Some(sink);
    let mut source = Some(source);
    assert!(pop_from(&mut source, 10).is_empty());
    push_to(&mut sink, &vec![1, 2, 3, 4]);
    assert_eq!(pop_from(&mut source, 3), vec![1, 2, 3]);
    assert_eq!(pop_from(&mut source, 3), vec![4]);
}

#[test]
fn a_full_ring_drops_the_rest() {
    let (sink, source) = audio_ring();
    let mut sink = Some(sink);
    let mut source = Some(source);
    push_to(&mut sink, &vec![7; 30_000]);
    assert_eq!(pop_from(&mut source, 40_000).len(), 24_000);
}

#[test]
fn a_bridge_carries_both_ways() {
    let (a, b) = conference_bridge();
    let (mut a_out, mut a_in) = (Some(a.out), Some(a.input));
    let (mut b_out, mut b_in) = (Some(b.out), Some(b.input));
    push_to(&mut a_out, &vec![1, 2]);
    push_to(&mut b_out, &vec![3]);
    assert_eq!(pop_from(&mut b_in, 10), vec![1, 2]);
    assert_eq!(pop_from(&mut a_in, 10), vec![3]);
}

#[test]
fn playback_waits_for_a_buffer() {
    let (sink, source) = audio_ring();
    let mut sink = Some(sink);
    let mut playback = Playback::new(source);
    push_to(&mut sink, &vec![5; PREBUFFER_SAMPLES - 1]);
    let filled = playback.fill(4);
    assert_eq!(filled.samples, vec![0, 0, 0, 0]);
    assert_eq!(filled.played, 0);
    push_to(&mut sink, &vec![5]);
    let filled = playback.fill(4);
    assert_eq!(filled.samples, vec![5, 5, 5, 5]);
    assert_eq!(filled.peak, 5);
    assert!(may_play(true, 0));
    assert!(!may_play(false, PREBUFFER_SAMPLES - 1));
}

#[test]
fn a_backlog_is_cut_to_the_target() {
    assert_eq!(samples_to_discard(MAX_BUFFERED_SAMPLES), 0);
    assert_eq!(
        samples_to_discard(MAX_BUFFERED_SAMPLES + 1),
        MAX_BUFFERED_SAMPLES + 1 - TARGET_BUFFERED_SAMPLES
    );
    let (sink, source) = audio_ring();
    let mut sink = Some(sink);
    let mut playback = Playback::new(source);
    push_to(&mut sink, &vec![1; MAX_BUFFERED_SAMPLES + 10]);
    let filled = playback.fill(10);
    assert_eq!(filled.discarded, MAX_BUFFERED_SAMPLES + 10 - TARGET_BUFFERED_SAMPLES);
    assert_eq!(filled.played, 10);
}

#[test]
fn what_is_there_is_played_before_silence() {
    let (sink, source) = audio_ring();
    let mut sink = Some(sink);
    let mut playback = Playback::new(source);
    let samples: Vec<i16> = (1..=3000).collect();
    push_to(&mut sink, &samples);
    let filled = playback.fill(2500);
    assert_eq!(filled.samples, samples[..2500]);
    let filled = playback.fill(2000);
    assert_eq!(filled.samples[..500], samples[2500..]);
    assert!(filled.samples[500..].iter().all(|&s| s == 0));
    assert_eq!((filled.discarded, filled.played), (0, 500));
}

#[test]
fn a_full_ring_takes_in_what_it_has_room_for() {
    let (here, there) = conference_bridge();
    let mut out = Some(here.out);
    push_to(&mut out, &vec![1; 3_999]);
    push_to(&mut out, &vec![2; 2]);
    let mut input = Some(there.input);
    let got = pop_from(&mut input, 5_000);
    assert_eq!(got.len(), 4_000);
    assert_eq!(got[3_998..], [1, 2]);
    push_to(&mut out, &vec![3; 10]);
    assert_eq!(pop_from(&mut input, 5_000), vec![3; 10]);
}

#[test]
fn captured_bytes_are_samples() {
    assert_eq!(captured_samples(&[0x01, 0x00, 0xff, 0xff, 0x07], 5), vec![1, -1]);
    assert_eq!(captured_samples(&[0x01, 0x00, 0xff, 0xff], 2), vec![1]);
    assert_eq!(samples_to_bytes(&[1, -1]), vec![0x01, 0x00, 0xff, 0xff]);
    assert_eq!(peak_of(&vec![3, -9, 4]), 9);
    assert_eq!(peak_of(&vec![i16::MIN]), 32768);
}

#[test]
fn a_muted_microphone_is_silent() {
    let (sink, source) = audio_ring();
    let mut sink = Some(sink);
    let mut source = Some(source);
    assert_eq!(capture(&mut sink, vec![9, 9], true), 0);
    assert_eq!(pop_from(&mut source, 9), vec![0, 0]);
    assert_eq!(capture(&mut sink, vec![9, -8], false), 9);
    assert_eq!(pop_from(&mut source, 9), vec![9, -8]);
}

#[test]
fn recording_adds_both_sides() {
    let mut mixer = RecordMixer::new();
    mixer.mix_in(RecordChannel::Mic, &[1, 2, 3]);
    mixer.mix_in(RecordChannel::Remote, &[10, 20]);
    mixer.mix_in(RecordChannel::Remote, &[30, 40]);
    assert_eq!(mixer.samples, vec![11, 22, 33, 40]);
    mixer.mix_in(RecordChannel::Mic, &[i16::MAX]);
    assert_eq!(mixer.samples, vec![11, 22, 33, i16::MAX]);
}

#[test]
fn a_recorder_hands_out_what_it_recorded_once() {
    let mut recorder = Recorder::new();
    recorder.record(RecordChannel::Mic, &[1]);
    assert!(recorder.stop_recording().is_none());
    recorder.start_recording();
    recorder.record(RecordChannel::Mic, &[1]);
    assert_eq!(recorder.stop_recording(), Some(vec![1]));
    assert!(recorder.stop_recording().is_none());
}

#[test]
fn wav_files_start_with_their_header() {
    let bytes = wav_bytes(&[1, -1]);
    assert_eq!(bytes.len(), 48);
    assert_eq!(&bytes[0..4], b"RIFF");
    assert_eq!(&bytes[4..8], &[40, 0, 0, 0]);
    assert_eq!(&bytes[8..16], b"WAVEfmt ");
    assert_eq!(&bytes[24..28], &[0x40, 0x1f, 0, 0]);
    assert_eq!(&bytes[40..44], &[4, 0, 0, 0]);
    assert_eq!(&bytes[44..], &[1, 0, 0xff, 0xff]);
}

#[test]
fn sent_audio_is_received() {
    let mut sender = Sender::new(0, Some(101), 7, 1000, 42);
    let mut recorder = Recorder::new();
    let packet = sender.audio_packet(vec![0; 160], &vec![], &vec![], false, &mut recorder);
    assert_eq!(packet.len(), 172);
    assert_eq!((sender.sequence_number, sender.timestamp), (8, 1160));

    let mut receiver = Receiver::new(PEER, 0, Some(101));
    match receiver.receive(PEER, &packet) {
        Reception::Audio { sequence_number, samples } => {
            assert_eq!(sequence_number, 7);
            assert_eq!(samples, vec![0; 160]);
            let (sink, source) = audio_ring();
            let mut playback = Some(sink);
            let due = receiver.play(
                sequence_number,
                samples,
                &mut None,
                &mut recorder,
                &mut None,
                &mut playback,
            );
            assert_eq!(due, 160);
            assert_eq!(pop_from(&mut Some(source), 500).len(), 160);
        }
        _ => panic!("audio of the peer"),
    }
}

#[test]
fn strangers_are_not_heard() {
    let mut sender = Sender::start(0, None);
    let mut recorder = Recorder::new();
    let packet = sender.audio_packet(vec![1; 160], &vec![], &vec![], false, &mut recorder);
    let mut receiver = Receiver::new(PEER, 0, None);
    assert!(matches!(receiver.receive(STRANGER, &packet), Reception::Ignored));
    assert!(matches!(receiver.receive(PEER, &[1, 2, 3]), Reception::Ignored));
    let mut other = Receiver::new(PEER, 8, None);
    assert!(matches!(other.receive(PEER, &packet), Reception::Ignored));
}

#[test]
fn a_digit_arrives_once() {
    let mut sender = Sender::new(0, Some(101), 0, 0, 1);
    assert!(sender.send_dtmf('7', 40));
    let mut receiver = Receiver::new(PEER, 0, Some(101));
    let mut packets = 0;
    while let Some(packet) = sender.next_event_packet() {
        assert!(matches!(receiver.receive(PEER, &packet), Reception::Event));
        packets += 1;
        assert!(packets < 50);
    }
    assert_eq!(packets, 4);
    assert_eq!(receiver.drain_received_dtmf(), vec!['7']);
    assert!(receiver.drain_received_dtmf().is_empty());
    assert!(!Sender::new(0, None, 0, 0, 1).send_dtmf('7', 40));
}

#[test]
fn joined_audio_is_added() {
    let mut base = vec![1, 2, 3];
    mix_into(&mut base, &vec![10, 10]);
    assert_eq!(base, vec![11, 12, 3]);
    mix_into(&mut base, &vec![]);
    assert_eq!(base, vec![11, 12, 3]);
}

#[test]
fn audio_is_sent_once_enough_is_there() {
    let (sink, mut source) = audio_ring();
    let mut sink = Some(sink);
    let mut sender = Sender::new(8, None, 0, 0, 1);
    let mut recorder = Recorder::new();
    assert!(sender
        .next_audio_packet(&mut source, &mut None, &mut None, false, &mut recorder)
        .is_none());
    push_to(&mut sink, &vec![1000; 160]);
    let packet = sender
        .next_audio_packet(&mut source, &mut None, &mut None, false, &mut recorder)
        .unwrap();
    let (header, payload) = RtpHeader::decode(&packet).unwrap();
    assert_eq!(header.payload_type, 8);
    let table = Codec::Alaw.build_decode_table();
    assert!(payload.iter().all(|&code| code == Codec::Alaw.encode(&table, 1000)));
}

#[test]
fn packets_are_full_and_take_what_waits() {
    let (capture_sink, mut capture) = audio_ring();
    let (bridge_sink, bridge) = audio_ring();
    let (mut capture_sink, mut bridge_sink) = (Some(capture_sink), Some(bridge_sink));
    let mut bridge = Some(bridge);
    push_to(&mut capture_sink, &vec![0; 330]);
    push_to(&mut bridge_sink, &vec![1000; 200]);
    let mut sender = Sender::new(8, None, 0, 0, 1);
    let mut recorder = Recorder::new();
    recorder.start_recording();
    for _ in 0..2 {
        let packet = sender
            .next_audio_packet(&mut capture, &mut bridge, &mut None, false, &mut recorder)
            .unwrap();
        assert_eq!(RtpHeader::decode(&packet).unwrap().1.len(), 160);
    }
    assert!(sender
        .next_audio_packet(&mut capture, &mut bridge, &mut None, false, &mut recorder)
        .is_none());
    let mut sent = vec![1000; 200];
    sent.resize(320, 0);
    assert_eq!(recorder.stop_recording(), Some(sent));
    assert_eq!(pop_from(&mut Some(capture), 20), vec![0; 10]);
    assert!(pop_from(&mut bridge, 20).is_empty());
}

fn node(class: &str, name: &str) -> NodeProps {
    NodeProps {
        media_class: Some(class.to_string()),
        node_name: Some(name.to_string()),
        node_description: Some(format!("{name} device")),
        application_name: None,
        media_name: None,
    }
}

#[test]
fn devices_are_told_apart() {
    let mut stream = node("Stream/Input/Audio", "voice");
    stream.application_name = Some("Chat".to_string());
    stream.media_name = Some("mic".to_string());
    let nodes = vec![node("Audio/Source", "mic"), node("Audio/Sink", "speaker"), stream];
    let inputs = list_input_devices(&nodes);
    assert_eq!(inputs.len(), 1);
    assert_eq!((inputs[0].id.as_str(), inputs[0].description.as_str()), ("mic", "mic device"));
    assert_eq!(list_output_devices(&nodes)[0].id, "speaker");
    let streams = list_app_capture_streams(&nodes);
    assert_eq!(streams.len(), 1);
    assert_eq!(streams[0].description, "Chat \u{2014} mic");
    assert!(list_app_playback_streams(&nodes).is_empty());
    let player = vec![node("Stream/Output/Audio", "player")];
    assert_eq!(list_app_playback_streams(&player)[0].id, "player");
    assert!(list_app_capture_streams(&player).is_empty());
}

#[test]
fn keys_have_their_frequencies() {
    assert_eq!(dtmf_frequencies('5'), Some((770, 1336)));
    assert_eq!(dtmf_frequencies('#'), Some((941, 1477)));
    assert_eq!(dtmf_frequencies('+'), None);
    assert_eq!(generate_dial_tone().len(), 1);
    let arguments = player_arguments(&Some("speaker".to_string()));
    assert_eq!(arguments.last().map(|s| s.as_str()), Some("speaker"));
}

#[test]
fn a_stopped_line_tone_ends_and_a_digit_does_not() {
    let mut player = DtmfTonePlayer::new();
    assert_eq!(player.step(), ToneStep::Silence);
    player.play_dial_tone();
    assert_eq!(player.step(), ToneStep::Again);
    assert_eq!(
        player.step(),
        ToneStep::Chunk { sound: QueuedSound::DialTone, from: 0, to: 320 }
    );
    player.stop_line_tone();
    assert_eq!(player.step(), ToneStep::Again);
    assert_eq!(player.step(), ToneStep::Silence);

    player.play('5');
    player.play('+');
    assert_eq!(player.step(), ToneStep::Again);
    player.stop_line_tone();
    let mut bytes = 0;
    loop {
        match player.step() {
            ToneStep::Chunk { from, to, .. } => bytes += to - from,
            ToneStep::Again => {}
            ToneStep::Silence => break,
        }
    }
    assert_eq!(bytes, QueuedSound::Digit('5').byte_len());
}

#[test]
fn ringing_goes_on_until_it_is_stopped() {
    let mut player = DtmfTonePlayer::new();
    player.play_incoming_ringtone();
    let size = QueuedSound::IncomingRing(player.incoming_ring_epoch).byte_len();
    let mut bytes = 0;
    for _ in 0..10_000 {
        if let ToneStep::Chunk { from, to, .. } = player.step() {
            bytes += to - from;
        }
        if bytes > size {
            break;
        }
    }
    assert!(bytes > size);
    player.stop_incoming_ringtone();
    let mut silent = false;
    for _ in 0..4 {
        silent = player.step() == ToneStep::Silence;
    }
    assert!(silent);
}
