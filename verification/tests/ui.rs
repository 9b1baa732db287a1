use oxidesip::net::PeerAddress;
use oxidesip::signaling::config::{DtmfMode, EnvVars, PreferredCodec, RawConfig, SipAccountConfig};
use oxidesip::signaling::events::{
    CallState, CoreCommand, CoreEvent, LocalMediaInfo, RemoteMediaInfo,
};
use oxidesip::ui::app::App;
use oxidesip::ui::contacts::{
    contacts_to_save, import_entries, shown_contacts, Contact, ContactSort, ImportContact,
};
use oxidesip::ui::dialing::{recording_filename, sanitize_dial_chars, split_dial_input};
use oxidesip::ui::effect::{Effect, Purpose, Timer, ToneCue, WindowKind};
use oxidesip::ui::history::{
    duration_label, entries_to_save, last_outgoing_number, now_unix, recent_numbers, relative_label,
    unix_from, CallDirection, CallOutcome, HistoryEntry,
};
use oxidesip::ui::labels::{
    account_label, avatar_hue, call_avatar_label, call_status, caller_name, chosen_device,
    compact_status, contact_initials, count_label, device_choices, dialpad_letters, format_elapsed,
    history_detail, history_mark, initial, line_light, line_status_label, line_tooltip, media_label,
    registration_texts, selected_join_ui, short_label, shown_digits, sub_label, title, JoinUi, Light,
    Mark,
};
use oxidesip::ui::message::{Message, Moment};
use oxidesip::ui::session::{
    idx_line, line_idx, AccountSession, CallUiState, RegistrationStatus, UNIT_GAIN, ZERO_GAIN,
};
use oxidesip::ui::settings::{
    AppSettings, AudioDeviceConfig, AudioSettingsForm, Screen, SettingsForm, SipSettingsForm,
};
use oxidesip::ui::startup::load_accounts;

const NOW: Moment = Moment { millis: 10_000, unix_secs: 1_000_000 };

fn later(millis: u64) -> Moment {
    Moment { millis: NOW.millis + millis, unix_secs: NOW.unix_secs + (millis / 1000) as i64 }
}

fn account(name: &str) -> SipAccountConfig {
    SipAccountConfig {
        name: name.to_string(),
        sip_server_host: "pbx".to_string(),
        username: "1001".to_string(),
        ..Default::default()
    }
}

fn app_with(settings: AppSettings) -> App {
    App::boot(
        vec![account("one"), account("two")],
        AudioDeviceConfig::default(),
        settings,
        Vec::new(),
        Vec::new(),
    )
}

fn app() -> App {
    app_with(AppSettings::default())
}

fn remote() -> RemoteMediaInfo {
    RemoteMediaInfo {
        remote_addr: PeerAddress { ip: "10.0.0.9".to_string(), port: 7000 },
        payload_type: 0,
        telephone_event_pt: Some(101),
        crypto_key: None,
    }
}

fn incoming(id: &str, line: u8, from: &str) -> Message {
    Message::Core(
        0,
        CoreEvent::IncomingCall {
            id: id.to_string(),
            line,
            remote: from.to_string(),
            offer: remote(),
        },
    )
}

fn news(id: &str, state: CallState) -> Message {
    Message::Core(0, CoreEvent::CallStateChanged { id: id.to_string(), state })
}

fn answered(id: &str) -> Message {
    news(id, CallState::Answered { local: LocalMediaInfo::default(), remote: remote() })
}

/// Calls `number` on the selected line of the first account until the audio
/// runs.
fn call(app: &mut App, id: &str, number: &str) {
    app.update(Message::DialInputChanged(number.to_string()), NOW);
    let line = app.accounts[0].selected_line;
    let mut out = app.update(Message::CallPressed, NOW);
    match out.pop() {
        Some(Effect::Reserve { account, idx, purpose }) => {
            app.update(Message::PortReserved { account, idx, purpose, outcome: Ok(4000) }, NOW);
        }
        _ => panic!("a port for the call"),
    }
    app.update(
        Message::Core(0, CoreEvent::OutgoingCallStarted { id: id.to_string(), line }),
        NOW,
    );
    app.update(answered(id), NOW);
    app.update(Message::MediaReady(0, id.to_string(), Ok(())), NOW);
}

#[test]
fn a_number_is_called() {
    let mut app = app();
    app.update(Message::DialInputChanged("555 (12) 34,,9".to_string()), NOW);
    let mut out = app.update(Message::CallPressed, NOW);
    assert_eq!(out.len(), 1);
    let purpose = match out.pop() {
        Some(Effect::Reserve { account: 0, idx: 0, purpose }) => purpose,
        _ => panic!("a port for the call"),
    };
    match &purpose {
        Purpose::Place { number, post_dial } => {
            assert_eq!(number, "5551234");
            assert_eq!(post_dial, ",,9");
        }
        _ => panic!("a call to place"),
    }
    let out = app.update(
        Message::PortReserved { account: 0, idx: 0, purpose, outcome: Ok(4000) },
        NOW,
    );
    assert!(matches!(
        &out[..],
        [Effect::Send { account: 0, command: CoreCommand::PlaceCall { line: 1, callee, local_rtp_port: 4000 } }]
            if callee == "5551234"
    ));
    app.update(
        Message::Core(0, CoreEvent::OutgoingCallStarted { id: "a".to_string(), line: 1 }),
        NOW,
    );
    assert!(matches!(
        &app.accounts[0].lines[0].call,
        CallUiState::Outgoing { number, .. } if number == "5551234"
    ));
    let out = app.update(answered("a"), NOW);
    assert_eq!(out.len(), 2);
    assert!(matches!(&out[0], Effect::StartMedia { account: 0, idx: 0, .. }));
    assert!(matches!(
        &out[1],
        Effect::Later { millis: 600, timer: Timer::PostDial { account: 0, id } } if id == "a"
    ));
    // Two pauses, then the digit.
    for _ in 0..2 {
        let out = app.update(Message::PostDialAdvance(0, "a".to_string()), NOW);
        assert!(matches!(&out[..], [Effect::Later { millis: 1500, .. }]));
    }
    let out = app.update(Message::PostDialAdvance(0, "a".to_string()), NOW);
    assert!(matches!(
        &out[..],
        [
            Effect::Tone(ToneCue::Digit('9')),
            Effect::Send { command: CoreCommand::SendDtmf { digit: '9', .. }, .. }
        ]
    ));
    assert!(app.update(Message::PostDialAdvance(0, "a".to_string()), NOW).is_empty());
}

#[test]
fn nothing_is_called_without_a_number() {
    let mut app = app();
    assert!(app.update(Message::CallPressed, NOW).is_empty());
    assert!(app.error.is_none());
    app.update(Message::DialInputChanged("abc".to_string()), NOW);
    assert!(app.update(Message::CallPressed, NOW).is_empty());
    assert_eq!(app.error.as_deref(), Some("enter a number to call"));
    app.update(
        Message::PortReserved {
            account: 0,
            idx: 0,
            purpose: Purpose::Answer { id: "x".to_string() },
            outcome: Err("no port".to_string()),
        },
        NOW,
    );
    assert_eq!(app.error.as_deref(), Some("failed to reserve local port: no port"));
}

#[test]
fn unwanted_calls_are_rejected_before_they_ring() {
    let mut app = app_with(AppSettings {
        auto_answer: true,
        deny_list: vec![" spam.example ".to_string(), " ".to_string()],
        ..Default::default()
    });
    let out = app.update(incoming("a", 1, "sip:x@spam.example"), NOW);
    assert!(matches!(
        &out[..],
        [Effect::Send { command: CoreCommand::RejectCall(id), .. }, Effect::SaveHistory] if id == "a"
    ));
    assert!(app.accounts[0].lines[0].call.is_idle());
    assert_eq!(app.call_history.len(), 1);
    assert_eq!(app.call_history[0].outcome, CallOutcome::Rejected);

    let out = app.update(incoming("b", 1, "sip:friend@example"), NOW);
    assert!(matches!(
        &out[..],
        [
            Effect::Reserve { account: 0, idx: 0, purpose: Purpose::Answer { id } },
            Effect::Tone(ToneCue::Ring)
        ] if id == "b"
    ));

    let mut quiet = app_with(AppSettings { dnd: true, ..Default::default() });
    quiet.update(incoming("c", 1, "anyone"), NOW);
    assert!(quiet.accounts[0].lines[0].call.is_idle());
}

#[test]
fn calls_are_answered_and_rejected() {
    let mut app = app();
    assert!(app.update(Message::AnswerPressed, NOW).is_empty());
    app.update(incoming("a", 1, "bob"), NOW);
    assert!(matches!(
        &app.update(Message::AnswerPressed, NOW)[..],
        [Effect::Reserve { purpose: Purpose::Answer { .. }, .. }]
    ));
    assert!(matches!(
        &app.update(Message::RejectPressed, NOW)[..],
        [Effect::Send { command: CoreCommand::RejectCall(id), .. }] if id == "a"
    ));
    let out = app.update(news("a", CallState::Rejected), NOW);
    assert!(matches!(
        &out[..],
        [
            Effect::SaveHistory,
            Effect::ClearLine { .. },
            Effect::Tone(ToneCue::Disconnect),
            Effect::Tone(ToneCue::StopRing)
        ]
    ));
    assert_eq!(app.accounts[0].lines[0].last_call_status.as_deref(), Some("declined"));
}

#[test]
fn a_call_that_was_missed_is_noted() {
    let mut app = app();
    app.update(incoming("a", 1, "bob"), NOW);
    let out = app.update(news("a", CallState::Terminated("call canceled".to_string())), NOW);
    assert!(matches!(&out[0], Effect::Tone(ToneCue::Disconnect)));
    assert_eq!(app.call_history[0].outcome, CallOutcome::Missed);
    assert_eq!(app.call_history[0].number, "bob");
    assert_eq!(
        app.accounts[0].lines[0].last_call_status.as_deref(),
        Some("call canceled")
    );
}

#[test]
fn an_unanswered_call_sounds_as_it_ended() {
    for (reason, cue) in [("busy", ToneCue::Busy), ("timed out", ToneCue::Reorder)] {
        let mut app = app();
        app.update(
            Message::Core(0, CoreEvent::OutgoingCallStarted { id: "a".to_string(), line: 1 }),
            NOW,
        );
        let out = app.update(news("a", CallState::Terminated(reason.to_string())), NOW);
        assert!(matches!(&out[0], Effect::Tone(c) if *c == cue));
        assert_eq!(app.call_history[0].outcome, CallOutcome::Failed);
    }
}

#[test]
fn hold_and_resume_restore_the_call() {
    let mut app = app();
    call(&mut app, "a", "555");
    app.update(Message::MuteToggled, NOW);
    app.update(Message::OutputVolumeChanged(7), NOW);
    let out = app.update(Message::HoldToggled, NOW);
    assert!(matches!(&out[..], [Effect::Send { command: CoreCommand::HoldCall(_), .. }]));
    let out = app.update(news("a", CallState::Held), NOW);
    assert!(matches!(
        &out[..],
        [Effect::SetMicMuted { muted: true, .. }, Effect::SetOutputVolume { gain: ZERO_GAIN, .. }]
    ));
    assert!(app.update(Message::OutputVolumeChanged(7), NOW).is_empty());
    let out = app.update(Message::HoldToggled, NOW);
    assert!(matches!(&out[..], [Effect::Send { command: CoreCommand::ResumeCall(_), .. }]));
    let out = app.update(answered("a"), NOW);
    assert!(matches!(
        &out[..],
        [Effect::SetMicMuted { muted: true, .. }, Effect::SetOutputVolume { gain: 7, .. }]
    ));
    match &app.accounts[0].lines[0].call {
        CallUiState::Active(c) => assert!(!c.on_hold && c.muted && c.output_volume == 7),
        _ => panic!("an active call"),
    }
}

#[test]
fn hanging_up_is_final_at_once() {
    let mut app = app();
    call(&mut app, "a", "555");
    app.update(Message::CompactToggled, NOW);
    let out = app.update(Message::HangUpPressed, later(65_000));
    assert!(matches!(&out[0], Effect::Send { command: CoreCommand::HangUp(id), .. } if id == "a"));
    assert!(matches!(&out[1], Effect::SaveRecording { secs: 65, keep: false, .. }));
    assert!(matches!(&out[2], Effect::SaveHistory));
    assert!(matches!(&out[3], Effect::ClearLine { .. }));
    assert!(matches!(&out[4], Effect::Tone(ToneCue::Disconnect)));
    assert!(matches!(&out[5], Effect::ResizeMain { compact: false }));
    assert_eq!(app.call_history[0].duration_secs, 65);
    assert_eq!(app.call_history[0].outcome, CallOutcome::Answered);
    assert!(app.accounts[0].lines[0].call.is_idle());
    assert!(app.update(news("a", CallState::Terminated("x".to_string())), NOW).is_empty());
    assert!(app.update(Message::HangUpPressed, NOW).is_empty());
    assert_eq!(app.call_history.len(), 1);
}

#[test]
fn switching_lines_holds_what_was_live() {
    let mut app = app();
    call(&mut app, "a", "555");
    let out = app.update(Message::LineSelected(2), NOW);
    assert!(matches!(
        &out[..],
        [
            Effect::Send { command: CoreCommand::HoldCall(_), .. },
            Effect::Tone(ToneCue::Dial),
            Effect::Later { millis: 8000, timer: Timer::LineIdle { account: 0, line: 2 } }
        ]
    ));
    assert!(app.accounts[0].line_open);
    app.update(news("a", CallState::Held), NOW);
    let out = app.update(Message::LineSelected(1), NOW);
    assert!(matches!(
        &out[..],
        [Effect::Tone(ToneCue::StopLine), Effect::Send { command: CoreCommand::ResumeCall(_), .. }]
    ));
    app.update(answered("a"), NOW);
    let out = app.update(Message::AccountSwitched(1), NOW);
    assert!(matches!(&out[0], Effect::Send { account: 0, command: CoreCommand::HoldCall(_) }));
    assert_eq!(app.selected_account, 1);
}

#[test]
fn an_open_line_times_out() {
    let mut app = app();
    let out = app.update(Message::LineSelected(1), NOW);
    assert_eq!(out.len(), 2);
    assert!(app.update(Message::LineIdleTimeout(0, 2), NOW).is_empty());
    let out = app.update(Message::LineIdleTimeout(0, 1), NOW);
    assert!(matches!(&out[..], [Effect::Tone(ToneCue::Reorder)]));
    assert!(!app.accounts[0].line_open);
    app.update(Message::LineSelected(1), NOW);
    app.update(Message::DialpadPressed('5'), NOW);
    assert!(app.update(Message::LineIdleTimeout(0, 1), NOW).is_empty());
    assert!(matches!(
        &app.update(Message::LineSelected(1), NOW)[..],
        [Effect::Tone(ToneCue::StopLine)]
    ));
    assert_eq!(app.dial_input, "");
    assert!(app.update(Message::LineSelected(9), NOW).is_empty());
}

#[test]
fn two_calls_are_joined_and_split() {
    let mut app = app();
    call(&mut app, "a", "555");
    app.update(Message::JoinCallsPressed, NOW);
    assert_eq!(app.error.as_deref(), Some("no other active call to join"));
    app.update(Message::AddCallPressed, NOW);
    assert_eq!(app.accounts[0].selected_line, 2);
    call(&mut app, "b", "666");
    app.update(Message::JoinCallsPressed, NOW);
    assert_eq!(app.accounts[0].pending_join, Some(2));
    assert!(matches!(selected_join_ui(&app.accounts[0]), JoinUi::Pending));
    let out = app.update(Message::LineSelected(1), NOW);
    assert!(matches!(&out[..], [Effect::Join { a: 1, b: 0, .. }]));
    assert_eq!(app.accounts[0].lines[0].joined, Some(2));
    assert_eq!(app.accounts[0].lines[1].joined, Some(1));
    assert!(matches!(
        selected_join_ui(&app.accounts[0]),
        JoinUi::Joined { partner_number } if partner_number == "555"
    ));
    app.update(Message::HoldToggled, NOW);
    assert_eq!(
        app.error.as_deref(),
        Some("can't hold a joined call \u{2014} split it first")
    );
    let out = app.update(Message::SplitCallPressed, NOW);
    assert_eq!(out.len(), 2);
    assert_eq!(app.accounts[0].lines[0].joined, None);
    assert_eq!(app.accounts[0].lines[1].joined, None);
    assert!(matches!(selected_join_ui(&app.accounts[0]), JoinUi::Available));
}

#[test]
fn joining_a_joined_call_leaves_no_one_behind() {
    let mut app = app();
    call(&mut app, "a", "1");
    for (line, id) in [(2u8, "b"), (3, "c")] {
        app.update(Message::LineSelected(line), NOW);
        call(&mut app, id, "2");
    }
    app.update(Message::JoinCallsPressed, NOW);
    app.update(Message::LineSelected(2), NOW);
    app.update(Message::LineSelected(1), NOW);
    app.update(Message::JoinCallsPressed, NOW);
    app.update(Message::LineSelected(2), NOW);
    let joined: Vec<Option<u8>> = app.accounts[0].lines.iter().map(|l| l.joined).collect();
    assert_eq!(joined, vec![Some(2), Some(1), None, None, None]);
    app.update(Message::JoinCallsPressed, NOW);
    assert_eq!(app.accounts[0].pending_join, None);
    // The end of one call sets its partner free.
    let out = app.update(news("b", CallState::Terminated(String::new())), NOW);
    assert!(out.iter().any(|e| matches!(e, Effect::Unjoin { idx: 0, .. })));
    assert_eq!(app.accounts[0].lines[0].joined, None);
    assert_eq!(app.accounts[0].lines[1].last_call_status, None);
}

#[test]
fn calls_are_transferred() {
    let mut app = app();
    call(&mut app, "a", "555");
    app.update(Message::TransferTargetChanged("9".to_string()), NOW);
    assert!(app.update(Message::TransferConfirmed, NOW).is_empty());
    app.update(Message::TransferPanelToggled, NOW);
    app.update(Message::TransferTargetChanged(" 777 ".to_string()), NOW);
    let out = app.update(Message::TransferConfirmed, NOW);
    assert!(matches!(
        &out[..],
        [Effect::Send { command: CoreCommand::BlindTransfer { id, target }, .. }]
            if id == "a" && target == "777"
    ));
    app.update(
        Message::Core(0, CoreEvent::TransferResult { id: "a".to_string(), ok: false }),
        NOW,
    );
    assert_eq!(app.error.as_deref(), Some("call transfer failed"));
    app.update(
        Message::Core(
            0,
            CoreEvent::HoldResumeFailed {
                id: "a".to_string(),
                hold: true,
                reason: "no".to_string(),
            },
        ),
        NOW,
    );
    assert_eq!(app.error.as_deref(), Some("hold failed: no"));
}

#[test]
fn audio_that_cannot_start_ends_the_call() {
    let mut app = app_with(AppSettings {
        recording_enabled: true,
        recording_path: "/tmp/x".to_string(),
        secondary_output_target: Some("chat".to_string()),
        ..Default::default()
    });
    let out = app.update(Message::MediaReady(0, "gone".to_string(), Ok(())), NOW);
    assert!(matches!(&out[..], [Effect::DiscardMedia { .. }]));
    let out = app.update(
        Message::MediaReady(0, "a".to_string(), Err("no device".to_string())),
        NOW,
    );
    assert!(matches!(&out[..], [Effect::Send { command: CoreCommand::HangUp(_), .. }]));
    assert_eq!(app.error.as_deref(), Some("audio pipeline failed: no device"));

    app.update(Message::DialInputChanged("5".to_string()), NOW);
    app.update(
        Message::PortReserved {
            account: 0,
            idx: 0,
            purpose: Purpose::Place { number: "5".to_string(), post_dial: String::new() },
            outcome: Ok(1),
        },
        NOW,
    );
    app.update(
        Message::Core(0, CoreEvent::OutgoingCallStarted { id: "a".to_string(), line: 1 }),
        NOW,
    );
    app.update(answered("a"), NOW);
    let out = app.update(Message::MediaReady(0, "a".to_string(), Ok(())), NOW);
    assert!(matches!(
        &out[..],
        [
            Effect::AttachMedia { .. },
            Effect::StartRecording { .. },
            Effect::SetSecondaryOutput { .. }
        ]
    ));
}

#[test]
fn a_failed_call_frees_its_line() {
    let mut app = app();
    let out = app.update(
        Message::Core(0, CoreEvent::PlaceCallFailed { line: 1, reason: "no route".to_string() }),
        NOW,
    );
    assert!(matches!(&out[..], [Effect::ClearLine { account: 0, idx: 0 }]));
    assert_eq!(app.error.as_deref(), Some("no route"));
    assert!(app.accounts[0].lines[0].call.is_idle());
}

#[test]
fn keys_are_typed_or_sent() {
    let mut app = app();
    let out = app.update(Message::DialInputChanged("12".to_string()), NOW);
    assert_eq!(out.len(), 2);
    assert!(app.update(Message::DialInputChanged("1".to_string()), NOW).is_empty());
    app.update(Message::DialpadPressed('#'), NOW);
    assert_eq!(app.dial_input, "1#");
    app.update(Message::DialInputChanged(String::new()), NOW);
    call(&mut app, "a", "555");
    let out = app.update(Message::DialpadPressed('8'), NOW);
    assert!(matches!(
        &out[..],
        [
            Effect::Tone(ToneCue::Digit('8')),
            Effect::SendEvent { account: 0, idx: 0, digit: '8' }
        ]
    ));
    match &app.accounts[0].lines[0].call {
        CallUiState::Active(c) => {
            assert_eq!(c.dtmf_feedback, vec!['8']);
            assert_eq!(c.input_volume, UNIT_GAIN);
        }
        _ => panic!("an active call"),
    }
    assert!(matches!(
        &app.update(Message::InputVolumeChanged(3), NOW)[..],
        [Effect::SetInputGain { gain: 3, .. }]
    ));
}

#[test]
fn the_last_number_is_redialled() {
    let mut app = app();
    assert!(app.update(Message::RedialPressed, NOW).is_empty());
    call(&mut app, "a", "555");
    app.update(Message::HangUpPressed, NOW);
    assert_eq!(app.update(Message::RedialPressed, NOW).len(), 1);
    assert_eq!(app.dial_input, "555");
    app.update(Message::TabSelected(Screen::Contacts), NOW);
    app.update(Message::DialNumber("777".to_string()), NOW);
    assert_eq!(app.screen, Screen::Dialer);
    assert_eq!(app.dial_input, "777");
    call(&mut app, "b", "1");
    app.update(Message::DialNumber("2".to_string()), NOW);
    assert_eq!(
        app.error.as_deref(),
        Some("selected line is busy \u{2014} pick a free line first")
    );
}

#[test]
fn accounts_are_saved_and_deleted() {
    let mut app = app();
    assert!(!app.needs_setup());
    app.update(Message::OpenSipSettings, NOW);
    assert_eq!(app.sip_settings_form.port, "5060");
    app.update(Message::SipSettingsPortChanged("x".to_string()), NOW);
    app.update(Message::SipSettingsSavePressed, NOW);
    assert_eq!(app.error.as_deref(), Some("invalid port: \"x\""));
    app.update(Message::SipSettingsPortChanged(" 5070 ".to_string()), NOW);
    app.update(Message::SipSettingsHostChanged(" ".to_string()), NOW);
    app.update(Message::SipSettingsSavePressed, NOW);
    assert_eq!(app.error.as_deref(), Some("server and username are required"));
    app.update(Message::SipSettingsHostChanged("new".to_string()), NOW);
    app.update(Message::SipSettingsNameChanged(" ".to_string()), NOW);
    let out = app.update(Message::SipSettingsSavePressed, NOW);
    assert!(matches!(&out[..], [Effect::SaveAccounts]));
    assert_eq!(app.accounts[0].config.name, "1001@new");
    assert_eq!(app.accounts[0].config.sip_server_port, 5070);
    assert_eq!(app.accounts[0].config.reg_epoch, 1);
    app.update(Message::SipSettingsSavePressed, NOW);
    assert_eq!(app.accounts[0].config.reg_epoch, 2);

    app.update(Message::AddAccountPressed, NOW);
    assert_eq!(app.sip_settings_form.host, "");
    app.update(Message::SipSettingsPortChanged("1".to_string()), NOW);
    app.update(Message::SipSettingsHostChanged("h".to_string()), NOW);
    app.update(Message::SipSettingsUsernameChanged("u".to_string()), NOW);
    app.update(Message::SipSettingsSavePressed, NOW);
    assert_eq!(app.accounts.len(), 3);
    assert_eq!(app.editing_account, Some(2));
    app.update(Message::DeleteAccountPressed(0), NOW);
    assert_eq!(app.editing_account, Some(1));
    app.update(Message::DeleteAccountPressed(1), NOW);
    assert_eq!(app.editing_account, Some(0));
    app.update(Message::DeleteAccountPressed(0), NOW);
    assert_eq!((app.accounts.len(), app.selected_account, app.editing_account), (0, 0, None));
    assert!(app.needs_setup());
}

#[test]
fn windows_open_once() {
    let mut app = app();
    assert!(matches!(
        &app.update(Message::OpenAudioSettings, NOW)[..],
        [Effect::OpenWindow(WindowKind::AudioSettings), Effect::ListDevices]
    ));
    assert!(matches!(
        &app.update(Message::OpenAudioSettings, NOW)[..],
        [Effect::FocusWindow(WindowKind::AudioSettings)]
    ));
    assert!(matches!(
        &app.update(Message::AudioSettingsCancelPressed, NOW)[..],
        [Effect::CloseWindow(WindowKind::AudioSettings)]
    ));
    assert!(app.update(Message::AudioSettingsCancelPressed, NOW).is_empty());
    app.update(Message::OpenSettings, NOW);
    app.update(Message::WindowClosed(WindowKind::Settings), NOW);
    assert!(!app.settings_window);
    assert!(matches!(
        &app.update(Message::WindowClosed(WindowKind::Main), NOW)[..],
        [Effect::Exit]
    ));
}

#[test]
fn audio_settings_reach_the_account() {
    let mut app = app();
    app.update(Message::OpenAudioSettings, NOW);
    assert_eq!(
        app.audio_settings_form.codecs,
        vec![PreferredCodec::Ulaw, PreferredCodec::Alaw]
    );
    app.update(Message::AudioSettingsCodecMoved(1, true), NOW);
    app.update(Message::AudioSettingsCodecMoved(1, false), NOW);
    app.update(Message::AudioSettingsSrtpToggled(true), NOW);
    app.update(Message::AudioSettingsDtmfModeChanged(DtmfMode::InfoOnly), NOW);
    app.update(Message::AudioSettingsInputDeviceChanged("mic".to_string()), NOW);
    app.update(Message::AudioSettingsOutputDeviceChanged(String::new()), NOW);
    let out = app.update(Message::AudioSettingsSavePressed, NOW);
    assert!(matches!(
        &out[..],
        [
            Effect::SaveAccounts,
            Effect::SaveAudioDevices,
            Effect::CloseWindow(WindowKind::AudioSettings)
        ]
    ));
    let config = &app.accounts[0].config;
    assert_eq!(config.preferred_codecs, vec![PreferredCodec::Alaw, PreferredCodec::Ulaw]);
    assert!(config.srtp);
    assert_eq!(config.dtmf_mode, DtmfMode::InfoOnly);
    assert_eq!(app.audio_devices.input_device.as_deref(), Some("mic"));
    assert_eq!(app.audio_devices.output_device, None);
}

#[test]
fn settings_are_trimmed_and_saved() {
    let mut app = app();
    app.update(Message::OpenSettings, NOW);
    app.update(Message::SettingsDndToggled(true), NOW);
    app.update(Message::SettingsDenyListInputChanged(" spam ".to_string()), NOW);
    app.update(Message::SettingsDenyListAddPressed, NOW);
    app.update(Message::SettingsDenyListInputChanged("spam".to_string()), NOW);
    app.update(Message::SettingsDenyListAddPressed, NOW);
    app.update(Message::SettingsDenyListAddPressed, NOW);
    assert_eq!(app.settings_form.deny_list, vec!["spam".to_string()]);
    app.update(Message::SettingsRecordingPathChanged(" /r ".to_string()), NOW);
    assert!(!app.settings.dnd);
    let out = app.update(Message::SettingsSavePressed, NOW);
    assert_eq!(out.len(), 2);
    assert!(app.settings.dnd);
    assert_eq!(app.settings.recording_path, "/r");
    app.update(Message::SettingsDenyListRemovePressed(5), NOW);
    app.update(Message::SettingsDenyListRemovePressed(0), NOW);
    assert!(app.settings_form.deny_list.is_empty());
    let form = SettingsForm::from_settings(&app.settings);
    assert_eq!(form.to_settings().deny_list, vec!["spam".to_string()]);
    assert!(app.settings.denies("sip:spam@x"));
}

fn person(name: &str, number: &str) -> Contact {
    Contact { name: name.to_string(), number: number.to_string() }
}

#[test]
fn contacts_are_edited() {
    let mut app = app();
    app.update(Message::AddContactPressed, NOW);
    app.update(Message::ContactNameChanged(" Ann ".to_string()), NOW);
    assert!(app.update(Message::ContactSavePressed, NOW).is_empty());
    assert!(app.contacts.is_empty());
    app.update(Message::AddContactPressed, NOW);
    app.update(Message::ContactNameChanged(" Ann ".to_string()), NOW);
    app.update(Message::ContactNumberChanged("1".to_string()), NOW);
    assert!(matches!(
        &app.update(Message::ContactSavePressed, NOW)[..],
        [Effect::PersistContacts]
    ));
    assert_eq!(app.contacts[0].name, "Ann");
    app.update(Message::EditContactPressed(0), NOW);
    app.update(Message::ContactNumberChanged("2".to_string()), NOW);
    app.update(Message::ContactSavePressed, NOW);
    assert_eq!((app.contacts.len(), app.contacts[0].number.as_str()), (1, "2"));
    assert!(app.update(Message::DeleteContactPressed(3), NOW).is_empty());
    app.update(Message::DeleteContactPressed(0), NOW);
    assert!(app.contacts.is_empty());
    app.update(Message::ContactSortToggled, NOW);
    assert_eq!(app.contact_sort, ContactSort::NameDesc);
    assert_eq!(app.contact_sort.label(), "Z-A");
}

#[test]
fn exported_contacts_come_back() {
    let contacts = [("Ann", "1"), (" ", "2"), ("Bob", ""), ("", "2"), ("Ann", "1")];
    let entries = contacts
        .iter()
        .map(|(name, number)| ImportContact {
            name: Some(name.to_string()),
            number: Some(number.to_string()),
            ..Default::default()
        })
        .collect();
    let back = import_entries(entries);
    assert_eq!(back.len(), contacts.len());
    for (contact, (name, number)) in back.iter().zip(contacts) {
        assert_eq!((contact.name.as_str(), contact.number.as_str()), (name, number));
    }
    let number_only = ImportContact { phone: Some("3".to_string()), ..Default::default() };
    let contact = number_only.into_contact().unwrap();
    assert_eq!((contact.name.as_str(), contact.number.as_str()), ("", "3"));
}

#[test]
fn contacts_are_imported() {
    let mut app = app();
    app.contacts = vec![person("Old", "1"), person("Kept", "9")];
    app.update(Message::ContactsIoPathChanged(" f.json ".to_string()), NOW);
    assert!(matches!(
        &app.update(Message::ContactsImportPressed, NOW)[..],
        [Effect::ImportContacts { path }] if path == "f.json"
    ));
    let entry = |name: Option<&str>, first: Option<&str>, last: Option<&str>, mobile: Option<&str>| {
        ImportContact {
            name: name.map(|s| s.to_string()),
            firstname: first.map(|s| s.to_string()),
            lastname: last.map(|s| s.to_string()),
            mobile: mobile.map(|s| s.to_string()),
            ..Default::default()
        }
    };
    let entries = vec![
        entry(Some("New"), None, None, Some("1")),
        entry(Some(" "), Some("Jo"), Some("Doe"), Some("2")),
        entry(Some(" "), None, None, Some(" ")),
        entry(None, None, None, None),
    ];
    app.update(Message::ContactsRead(Ok(entries)), NOW);
    assert_eq!(app.contacts_io_status.as_deref(), Some("Imported 2 contacts"));
    assert_eq!(app.contacts.len(), 3);
    assert_eq!(app.contacts[0].name, "New");
    assert_eq!(app.contacts[1].name, "Kept");
    assert_eq!(app.contacts[2].name, "Jo Doe");
    app.update(Message::ContactsRead(Ok(vec![entry(Some("X"), None, None, Some("5"))])), NOW);
    assert_eq!(app.contacts_io_status.as_deref(), Some("Imported 1 contact"));
    app.update(Message::ContactsRead(Err("gone".to_string())), NOW);
    assert_eq!(app.contacts_io_status.as_deref(), Some("Import failed: gone"));
    app.update(Message::ContactsWritten(Ok(())), NOW);
    assert_eq!(app.contacts_io_status.as_deref(), Some("Exported 4 contacts"));
    app.update(Message::ContactsWritten(Err("full".to_string())), NOW);
    assert_eq!(app.contacts_io_status.as_deref(), Some("Export failed: full"));
    app.update(Message::ContactsLoaded(vec![person("Z", "0")]), NOW);
    assert_eq!(app.contacts.len(), 1);
}

#[test]
fn contacts_are_listed_by_name() {
    let contacts = vec![person("bob", "1"), person("Ann", "2"), person("\u{c9}mile", "3"), person("Bob", "4")];
    assert_eq!(shown_contacts(&contacts, "", ContactSort::NameAsc), vec![1, 0, 3, 2]);
    assert_eq!(shown_contacts(&contacts, "", ContactSort::NameDesc), vec![2, 3, 0, 1]);
    assert_eq!(shown_contacts(&contacts, "BOB", ContactSort::NameAsc), vec![0, 3]);
    assert_eq!(shown_contacts(&contacts, "\u{c9}M", ContactSort::NameAsc), vec![2]);
    assert_eq!(shown_contacts(&contacts, "4", ContactSort::NameAsc), vec![3]);
    let saved = contacts_to_save(&contacts);
    let names: Vec<&str> = saved.iter().map(|c| c.name.as_str()).collect();
    assert_eq!(names, vec!["Ann", "bob", "Bob", "\u{c9}mile"]);
}

fn entry(number: &str, direction: CallDirection) -> HistoryEntry {
    HistoryEntry {
        number: number.to_string(),
        direction,
        outcome: CallOutcome::Answered,
        unix_secs: 0,
        duration_secs: 61,
    }
}

#[test]
fn the_history_is_kept_short() {
    let entries: Vec<HistoryEntry> =
        (0..250).map(|i| entry(&i.to_string(), CallDirection::Outgoing)).collect();
    let saved = entries_to_save(&entries);
    assert_eq!(saved.len(), 200);
    assert_eq!(saved[0].number, "50");
    assert_eq!(saved[199].number, "249");
    assert_eq!(recent_numbers(&entries).len(), 12);

    let entries = vec![
        entry("1", CallDirection::Outgoing),
        entry("2", CallDirection::Outgoing),
        entry("1", CallDirection::Outgoing),
        entry("3", CallDirection::Incoming),
    ];
    assert_eq!(recent_numbers(&entries), vec!["1".to_string(), "2".to_string()]);
    assert_eq!(last_outgoing_number(&entries).as_deref(), Some("1"));
    assert_eq!(entries_to_save(&entries).len(), 4);
}

#[test]
fn times_are_told_in_short() {
    assert_eq!(relative_label(100, 50), "just now");
    assert_eq!(relative_label(50, 100), "just now");
    assert_eq!(relative_label(120, 0), "2m ago");
    assert_eq!(relative_label(7200, 0), "2h ago");
    assert_eq!(relative_label(2 * 86_400, 0), "2d ago");
    assert_eq!(relative_label(30 * 86_400, 0), "4w ago");
    assert_eq!(duration_label(0), "00:00");
    assert_eq!(duration_label(3725), "62:05");
    assert_eq!(format_elapsed(65), "1:05");
    assert_eq!(unix_from(None), 0);
    assert_eq!(unix_from(Some(5)), 5);
    assert!(now_unix() > 1_600_000_000);
}

#[test]
fn numbers_are_cleaned_up() {
    assert_eq!(sanitize_dial_chars("+1 (555) 123-4567", true), "+15551234567");
    assert_eq!(sanitize_dial_chars("+1", false), "1");
    assert_eq!(sanitize_dial_chars("1+2*#x", true), "12*#");
    assert_eq!(split_dial_input("123"), ("123".to_string(), String::new()));
    assert_eq!(split_dial_input("1,2 3,x#"), ("1".to_string(), ",23,#".to_string()));
    assert_eq!(recording_filename("+1 555/2", 65, 1000), "+15552 (1m05s) 1000.wav");
    assert_eq!(recording_filename("@@", 5, -7), "unknown (0m05s) -7.wav");
}

#[test]
fn people_are_shown_by_their_initials() {
    let contacts = vec![person("ann b lee", "555")];
    assert_eq!(contact_initials("ann b lee"), "AB");
    assert_eq!(contact_initials("zoe"), "Z");
    assert_eq!(contact_initials("  "), "#");
    assert_eq!(call_avatar_label(&contacts, "555"), "AB");
    assert_eq!(call_avatar_label(&contacts, "+1 23x4y"), "34");
    assert_eq!(call_avatar_label(&contacts, "x7"), "7");
    assert_eq!(call_avatar_label(&contacts, "bob"), "#");
    assert_eq!(caller_name(&contacts, "555"), "ann b lee");
    assert_eq!(caller_name(&contacts, "556"), "556");
    assert_eq!(initial("*\u{e9}a"), "\u{c9}");
    assert_eq!(initial("\u{df}x"), "SS");
    assert_eq!(initial("*#"), "#");
    assert_eq!(avatar_hue(""), 5381 % 360);
    assert_eq!(avatar_hue("a"), (5381 * 33 + 97) % 360);
    assert_ne!(avatar_hue("ann"), avatar_hue("bob"));
    assert_eq!(dialpad_letters('7'), "PQRS");
    assert_eq!(dialpad_letters('1'), "");
}

#[test]
fn lines_are_lit_and_named() {
    let mut app = app();
    assert_eq!(line_light(&app.accounts[0], 0), Light::Off);
    app.update(Message::LineSelected(1), NOW);
    assert_eq!(line_light(&app.accounts[0], 0), Light::On);
    assert_eq!(
        line_tooltip(1, &app.accounts[0].lines[0].call, None, true),
        "Line 1 \u{2014} open, ready to dial"
    );
    assert_eq!(
        line_status_label(&app.accounts[0], later(25_000)).as_deref(),
        Some("(L1 0:25)")
    );
    call(&mut app, "a", "5551234");
    assert_eq!(line_light(&app.accounts[0], 0), Light::Live);
    assert_eq!(line_light(&app.accounts[0], 1), Light::Off);
    let call_state = &app.accounts[0].lines[0].call;
    assert_eq!(line_tooltip(1, call_state, None, false), "Line 1 \u{2014} 5551234");
    assert_eq!(
        line_tooltip(1, call_state, Some(2), false),
        "Line 1 \u{2014} 5551234 (joined with Line 2)"
    );
    assert_eq!(sub_label(call_state, true), "555123 J");
    assert_eq!(short_label("123"), "123");
    match call_state {
        CallUiState::Active(c) => {
            assert_eq!(call_status(c, &JoinUi::Hidden, later(61_000)), "01:01");
            assert_eq!(compact_status(c), "Connected");
            let joined = JoinUi::Joined { partner_number: "9".to_string() };
            assert_eq!(call_status(c, &joined, NOW), "Joined with 9");
        }
        _ => panic!("an active call"),
    }
    app.update(Message::HangUpPressed, NOW);
    assert_eq!(
        line_status_label(&app.accounts[0], NOW).as_deref(),
        Some("(L1 0:00)")
    );
    app.update(Message::LineSelected(1), NOW);
    assert_eq!(line_status_label(&app.accounts[0], NOW).as_deref(), Some("(hung up)"));
    assert_eq!(shown_digits(&"123456789".chars().collect()), "23456789");
    assert_eq!((line_idx(0), line_idx(1), line_idx(5), idx_line(4)), (0, 0, 4, 5));
}

#[test]
fn registrations_are_told() {
    let mut app = app();
    assert_eq!(registration_texts(&app.accounts[0].registration, NOW).0, "Connecting");
    app.update(Message::Core(0, CoreEvent::Registered { expires: 100, rtt_ms: 5 }), NOW);
    let (label, detail) = registration_texts(&app.accounts[0].registration, later(35_000));
    assert_eq!(label, "Connected");
    assert_eq!(
        detail,
        "Registered with SIP server \u{2014} renews in 1:05 \u{2014} last REGISTER took 5ms"
    );
    app.update(
        Message::Core(0, CoreEvent::RegistrationHalted { reason: "403".to_string() }),
        NOW,
    );
    assert!(matches!(&app.accounts[0].registration, RegistrationStatus::Failed { reason } if reason == "403"));
    assert_eq!(
        registration_texts(&app.accounts[0].registration, NOW),
        ("Offline", "Registration failed: 403".to_string())
    );
}

#[test]
fn lists_are_labelled() {
    assert_eq!(title(WindowKind::Main), "OxideSip");
    assert_eq!(title(WindowKind::Settings), "OxideSip \u{2014} Settings");
    assert_eq!(media_label(0, 1, false), "OxideSip Acct1 Line 2");
    assert_eq!(media_label(0, 1, true), "OxideSip Acct1 Line 2 (secondary)");
    assert_eq!(account_label("", 2), "Account 3");
    assert_eq!(account_label("x", 2), "x");
    assert_eq!(count_label(1), "1 contact");
    assert_eq!(count_label(0), "0 contacts");
    let mut e = entry("1", CallDirection::Incoming);
    assert_eq!(history_mark(&e), Mark::Received);
    assert_eq!(history_detail(60, &e), "1m ago - 01:01");
    e.outcome = CallOutcome::Missed;
    assert_eq!(history_mark(&e), Mark::Missed);
    assert_eq!(history_detail(60, &e), "1m ago");
    let device = |id: &str| oxidesip::media::devices::AudioDevice {
        id: id.to_string(),
        description: id.to_uppercase(),
    };
    let choices = device_choices("None", &vec![device("chat")], &vec![device("sink")]);
    let shown: Vec<&str> = choices.iter().map(|d| d.description.as_str()).collect();
    assert_eq!(shown, vec!["None", "App: CHAT", "SINK"]);
    assert_eq!(chosen_device(&choices, &None), Some(0));
    assert_eq!(chosen_device(&choices, &Some("sink".to_string())), Some(2));
    assert_eq!(chosen_device(&choices, &Some("gone".to_string())), None);
}

#[test]
fn the_program_starts_with_what_was_saved() {
    let env = EnvVars::default();
    assert!(load_accounts(None, None, &env).accounts.is_empty());
    let saved = load_accounts(Some(vec![account("x")]), Some(RawConfig::default()), &env);
    assert!(!saved.migrated && saved.accounts.len() == 1);
    let raw = || RawConfig {
        sip_server_host: Some("pbx".to_string()),
        username: Some("u".to_string()),
        password: Some("p".to_string()),
        ..Default::default()
    };
    let emptied = load_accounts(Some(vec![]), Some(raw()), &env);
    assert!(!emptied.migrated && emptied.accounts.is_empty());
    let migrated = load_accounts(None, Some(raw()), &env);
    assert!(migrated.migrated);
    assert_eq!(migrated.accounts[0].name, "Default");
    let fresh = AccountSession::new(account("x"));
    assert_eq!((fresh.lines.len(), fresh.selected_line), (5, 1));
    let form = AudioSettingsForm::from_config(&account("x"), &AudioDeviceConfig::default());
    assert_eq!(form.codecs.len(), 2);
    let mut twice = account("x");
    twice.preferred_codecs =
        vec![PreferredCodec::Alaw, PreferredCodec::Alaw, PreferredCodec::Ulaw, PreferredCodec::Alaw];
    let form = AudioSettingsForm::from_config(&twice, &AudioDeviceConfig::default());
    assert_eq!(form.codecs, vec![PreferredCodec::Alaw, PreferredCodec::Ulaw]);
    assert_eq!(SipSettingsForm::from_config(&account("x")).username, "1001");
}

#[test]
fn ringing_starts_and_stops_with_the_calls() {
    let mut app = app();
    assert!(!app.is_ringing());
    let out = app.update(incoming("a", 1, "bob"), NOW);
    assert!(matches!(&out[..], [Effect::Tone(ToneCue::Ring)]));
    assert!(app.update(incoming("b", 2, "eve"), NOW).is_empty());
    let out = app.update(news("a", CallState::Terminated(String::new())), NOW);
    assert!(!out.iter().any(|e| matches!(e, Effect::Tone(ToneCue::StopRing))));
    let out = app.update(news("b", CallState::Terminated(String::new())), NOW);
    assert!(matches!(out.last(), Some(Effect::Tone(ToneCue::StopRing))));

    app.update(
        Message::Core(0, CoreEvent::OutgoingCallStarted { id: "c".to_string(), line: 1 }),
        NOW,
    );
    let out = app.update(news("c", CallState::Ringing), NOW);
    assert!(matches!(&out[..], [Effect::Tone(ToneCue::Ringback)]));
    assert!(app.is_ringing_back());
    let out = app.update(news("c", CallState::EarlyMedia { remote: remote() }), NOW);
    assert!(matches!(&out[..], [Effect::Tone(ToneCue::StopRingback)]));
}

#[test]
fn digits_go_with_the_audio_where_both_sides_agreed() {
    let mut app = app();
    call(&mut app, "a", "555");
    assert!(matches!(
        &app.update(Message::DialpadPressed('x'), NOW)[..],
        [_, Effect::Send { command: CoreCommand::SendDtmf { digit: 'x', .. }, .. }]
    ));
    let mut other = self::app();
    other.update(incoming("b", 1, "bob"), NOW);
    other.update(
        Message::PortReserved {
            account: 0,
            idx: 0,
            purpose: Purpose::Answer { id: "b".to_string() },
            outcome: Ok(4000),
        },
        NOW,
    );
    let plain = RemoteMediaInfo { telephone_event_pt: None, ..remote() };
    other.update(
        news("b", CallState::Answered { local: LocalMediaInfo::default(), remote: plain }),
        NOW,
    );
    other.update(Message::MediaReady(0, "b".to_string(), Ok(())), NOW);
    assert!(matches!(
        &other.update(Message::DialpadPressed('1'), NOW)[..],
        [_, Effect::Send { command: CoreCommand::SendDtmf { digit: '1', .. }, .. }]
    ));
}
