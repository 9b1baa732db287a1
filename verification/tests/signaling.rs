use oxidesip::net::IpAddress;
use oxidesip::signaling::config::{DtmfMode, SipAccountConfig, SipTransport};
use oxidesip::signaling::dialog::{
    build_callee_uri, dtmf_body, route_request, terminated_reason_label, DialogAction, DialogEvent,
    DialogKey, DialogTracker, EndReason, Fresh, Invitation, Reply, Request, Route, Status,
};
use oxidesip::signaling::error::CoreError;
use oxidesip::signaling::events::{CallState, CoreCommand, CoreEvent};
use oxidesip::signaling::registration::{grow_backoff, Attempt, RegistrationState};
use oxidesip::signaling::sdp::{build_sdp, generate_offer, parse_offer};
use oxidesip::signaling::softphone::SoftphoneCore;
use oxidesip::signaling::transport::{
    local_media_addr, parse_uri, plan_transport, registrar_uri, Interface, TransportPlan,
};

const LOCAL: IpAddress = IpAddress::V4(0x0a00_0005);

fn account() -> SipAccountConfig {
    SipAccountConfig {
        sip_server_host: "pbx.example.com".to_string(),
        username: "1001".to_string(),
        password: "secret".to_string(),
        ..Default::default()
    }
}

fn key(call_id: &str) -> DialogKey {
    DialogKey {
        call_id: call_id.to_string(),
        local_tag: "here".to_string(),
        remote_tag: "there".to_string(),
    }
}

fn sdp_of(port: u16, payload_types: &[u8]) -> Vec<u8> {
    let offer = generate_offer(port, false, false, payload_types, true);
    build_sdp(IpAddress::V4(0x0a00_0009), &offer).to_string().into_bytes()
}

fn calling(call_id: &str) -> DialogEvent {
    DialogEvent::Calling {
        id: key(call_id),
        invite: Some(Invitation { body: sdp_of(7000, &[8, 0]), from: "sip:bob@example.com".to_string() }),
    }
}

#[test]
fn only_invitations_start_dialogs() {
    assert_eq!(route_request(true, false), Route::InDialog);
    assert_eq!(route_request(false, true), Route::NewInvite);
    assert_eq!(route_request(false, false), Route::Refuse(405));
}

#[test]
fn a_call_that_comes_in_rings_on_a_line() {
    let mut tracker = DialogTracker::new();
    let actions = tracker.handle_dialog_state(calling("a"));
    assert_eq!(actions.len(), 2);
    assert!(matches!(&actions[1], DialogAction::Ring { dialog } if dialog.call_id == "a"));
    match &actions[0] {
        DialogAction::Emit(CoreEvent::IncomingCall { id, line, remote, offer }) => {
            assert_eq!(id, "a");
            assert_eq!(*line, 1);
            assert_eq!(remote, "sip:bob@example.com");
            assert_eq!((offer.remote_addr.ip.as_str(), offer.remote_addr.port), ("10.0.0.9", 7000));
            assert_eq!(offer.payload_type, 8);
            assert_eq!(offer.telephone_event_pt, Some(101));
        }
        _ => panic!("an incoming call"),
    }
    tracker.handle_dialog_state(calling("b"));
    assert_eq!(tracker.lines[&2].call_id, "b");
}

#[test]
fn a_sixth_call_is_refused() {
    let mut tracker = DialogTracker::new();
    for id in ["a", "b", "c", "d", "e"] {
        tracker.handle_dialog_state(calling(id));
    }
    assert_eq!(tracker.first_free_line(), None);
    let actions = tracker.handle_dialog_state(calling("f"));
    assert_eq!(actions.len(), 1);
    assert!(matches!(&actions[0], DialogAction::Reject { code: 486, .. }));
    assert_eq!(tracker.lines.len(), 5);
}

#[test]
fn a_call_is_answered_with_the_best_codec() {
    let mut tracker = DialogTracker::new();
    tracker.handle_dialog_state(calling("a"));
    let fresh = Fresh::draw();
    let request = tracker.handle_command(
        &account(),
        LOCAL,
        &fresh,
        CoreCommand::AnswerCall { id: "a".to_string(), local_rtp_port: 4000 },
    );
    match request {
        Request::Accept(plan) => {
            let answer = parse_offer(&plan.answer).unwrap();
            assert_eq!(answer.port, 4000);
            assert_eq!(answer.payload_types, vec![0]);
            assert_eq!(plan.remote.payload_type, 0);
            assert_eq!(plan.remote.telephone_event_pt, Some(101));
            let actions = tracker.handle_reply(Reply::Accepted(plan));
            assert!(matches!(
                &actions[..],
                [DialogAction::Emit(CoreEvent::CallStateChanged {
                    state: CallState::Answered { remote, .. },
                    ..
                })] if remote.payload_type == 0
            ));
        }
        _ => panic!("an answer"),
    }
}

#[test]
fn the_end_of_a_call_frees_its_line() {
    let mut tracker = DialogTracker::new();
    tracker.handle_dialog_state(calling("a"));
    let actions = tracker.handle_dialog_state(DialogEvent::Terminated {
        id: key("a"),
        reason: EndReason::UacBye,
    });
    assert!(actions.iter().any(|a| matches!(
        a,
        DialogAction::Emit(CoreEvent::CallStateChanged { state: CallState::Terminated(why), .. })
            if why == "hung up"
    )));
    assert!(tracker.lines.is_empty());
    assert_eq!(tracker.first_free_line(), Some(1));
}

#[test]
fn placing_a_call_needs_a_free_line() {
    let tracker = DialogTracker::new();
    let fresh = Fresh::draw();
    let command = CoreCommand::PlaceCall {
        line: 2,
        callee: "555".to_string(),
        local_rtp_port: 4002,
    };
    match tracker.handle_command(&account(), LOCAL, &fresh, command) {
        Request::Invite(plan) => {
            assert_eq!(plan.line, 2);
            assert_eq!(plan.callee, "sip:555@pbx.example.com;transport=udp");
            assert_eq!(parse_offer(&plan.offer).unwrap().payload_types, vec![0, 8]);
        }
        _ => panic!("an invitation"),
    }
    let mut busy = DialogTracker::new();
    busy.handle_dialog_state(calling("a"));
    let command = CoreCommand::PlaceCall {
        line: 1,
        callee: "555".to_string(),
        local_rtp_port: 4002,
    };
    assert!(matches!(
        busy.handle_command(&account(), LOCAL, &fresh, command),
        Request::Emit(CoreEvent::PlaceCallFailed { line: 1, .. })
    ));
}

#[test]
fn hold_keeps_the_socket_and_says_so() {
    let mut tracker = DialogTracker::new();
    tracker.handle_dialog_state(calling("a"));
    let fresh = Fresh::draw();
    let command = CoreCommand::AnswerCall { id: "a".to_string(), local_rtp_port: 4000 };
    if let Request::Accept(plan) = tracker.handle_command(&account(), LOCAL, &fresh, command) {
        tracker.handle_reply(Reply::Accepted(plan));
    }
    match tracker.handle_command(&account(), LOCAL, &fresh, CoreCommand::HoldCall("a".to_string())) {
        Request::Reinvite(plan) => {
            assert!(plan.hold);
            assert!(plan.offer.contains("a=sendonly"));
            let offer = parse_offer(&plan.offer).unwrap();
            assert_eq!((offer.port, offer.payload_types), (4000, vec![0]));
            let actions = tracker.handle_reply(Reply::ReinviteDone { plan, error: None });
            assert!(matches!(
                &actions[0],
                DialogAction::Emit(CoreEvent::CallStateChanged { state: CallState::Held, .. })
            ));
        }
        _ => panic!("an offer to hold"),
    }
}

#[test]
fn digits_go_by_info_unless_the_account_wants_events_alone() {
    let mut tracker = DialogTracker::new();
    tracker.handle_dialog_state(calling("a"));
    let fresh = Fresh::draw();
    let send = || CoreCommand::SendDtmf { id: "a".to_string(), digit: '5' };
    for dtmf_mode in [DtmfMode::Auto, DtmfMode::InfoOnly] {
        let account = SipAccountConfig { dtmf_mode, ..account() };
        assert!(matches!(
            tracker.handle_command(&account, LOCAL, &fresh, send()),
            Request::SendInfo { digit: '5', start_worker: true, .. }
        ));
    }
    let account = SipAccountConfig { dtmf_mode: DtmfMode::RtpOnly, ..account() };
    assert!(matches!(
        tracker.handle_command(&account, LOCAL, &fresh, send()),
        Request::Nothing
    ));
}

#[test]
fn commands_about_unknown_calls_do_nothing() {
    let tracker = DialogTracker::new();
    let fresh = Fresh::draw();
    for command in [
        CoreCommand::HangUp("x".to_string()),
        CoreCommand::RejectCall("x".to_string()),
        CoreCommand::SendDtmf { id: "x".to_string(), digit: '1' },
        CoreCommand::Shutdown,
    ] {
        assert!(matches!(
            tracker.handle_command(&account(), LOCAL, &fresh, command),
            Request::Nothing
        ));
    }
}

#[test]
fn ends_are_told_in_words() {
    let other = |code: u16, text: &str| {
        EndReason::UasOther(Status { code, text: text.to_string() })
    };
    assert_eq!(terminated_reason_label(&EndReason::UasBusy), "busy");
    assert_eq!(terminated_reason_label(&EndReason::UasDecline), "declined");
    assert_eq!(terminated_reason_label(&EndReason::Timeout), "timed out");
    assert_eq!(terminated_reason_label(&other(486, "486 Busy Here")), "busy");
    assert_eq!(terminated_reason_label(&other(404, "404 Not Found")), "number not found");
    assert_eq!(terminated_reason_label(&other(503, "503 x")), "server error");
    assert_eq!(terminated_reason_label(&other(410, "410 Gone")), "410 Gone");
    assert_eq!(dtmf_body('5'), "Signal=5\r\nDuration=250\r\n");
}

#[test]
fn callee_addresses_are_checked() {
    assert_eq!(
        build_callee_uri("sip:bob@example.com", &account()).unwrap().text,
        "sip:bob@example.com"
    );
    assert!(matches!(parse_uri("sip:host:99999999".to_string()), Err(CoreError::Sip(_))));
}

#[test]
fn registration_backs_off_and_halts() {
    let refused = || Attempt::Answer {
        code: 401,
        status: "401 Unauthorized".to_string(),
        expires: 0,
        rtt_ms: 1,
    };
    let mut state = RegistrationState::new();
    let first = state.backoff;
    assert_eq!(state.after(refused()).1, Some(first));
    assert_eq!(first, 30);
    assert_eq!(state.after(refused()).1, Some(first));
    let unavailable = Attempt::Answer {
        code: 503,
        status: "503 Service Unavailable".to_string(),
        expires: 0,
        rtt_ms: 1,
    };
    assert_eq!(state.after(unavailable).1, Some(first));
    assert_eq!(state.after(Attempt::Failed { error: "timeout".to_string() }).1, Some(2 * first));
    assert_eq!(state.after(refused()).1, Some(first));
    assert_eq!(state.after(refused()).1, Some(first));
    let (event, wait) = state.after(refused());
    assert!(matches!(event, CoreEvent::RegistrationHalted { .. }));
    assert_eq!(wait, None);

    let mut state = RegistrationState::new();
    state.after(Attempt::Failed { error: "timeout".to_string() });
    let (event, wait) = state.after(Attempt::Answer {
        code: 200,
        status: "200 OK".to_string(),
        expires: 3600,
        rtt_ms: 12,
    });
    assert!(matches!(event, CoreEvent::Registered { expires: 3600, rtt_ms: 12 }));
    assert_eq!(wait, Some(2700));
    assert_eq!(state.backoff, first);

    let mut state = RegistrationState::new();
    let (event, wait) = state.after(Attempt::Answer {
        code: 403,
        status: "403 Forbidden".to_string(),
        expires: 0,
        rtt_ms: 1,
    });
    assert!(matches!(event, CoreEvent::RegistrationHalted { .. }));
    assert_eq!(wait, None);
    assert_eq!(grow_backoff(200), 300);
    assert_eq!(grow_backoff(1_000_000), 300);
}

#[test]
fn transports_are_planned() {
    assert!(matches!(plan_transport(&account()), Ok(TransportPlan::Udp { local_port: 0 })));
    let tls = SipAccountConfig { transport: SipTransport::Tls, ..account() };
    assert!(matches!(plan_transport(&tls), Err(CoreError::Config(_))));
    assert!(SoftphoneCore::prepare(&tls).is_err());
    let core = SoftphoneCore::prepare(&account()).unwrap();
    assert!(!core.warm_up);
    assert_eq!(core.registrar.text, "sip:pbx.example.com:5060;transport=udp");
    let tls = SipAccountConfig { ca_cert_path: Some("ca.pem".to_string()), ..tls };
    assert!(SoftphoneCore::prepare(&tls).unwrap().warm_up);
    assert_eq!(registrar_uri(&tls).unwrap().text, "sip:pbx.example.com:5060;transport=tls");
}

#[test]
fn audio_arrives_at_the_first_address_that_leads_anywhere() {
    let interfaces = vec![
        Interface { ip: IpAddress::V4(0x7f00_0001), loopback: true },
        Interface { ip: LOCAL, loopback: false },
    ];
    assert_eq!(local_media_addr(None, &interfaces).unwrap(), LOCAL);
    let connected = IpAddress::V6(1);
    assert_eq!(local_media_addr(Some(connected), &interfaces).unwrap(), connected);
    assert!(matches!(local_media_addr(None, &vec![]), Err(CoreError::Config(_))));
}

#[test]
fn errors_are_told_in_words() {
    let errors = [
        CoreError::Sip("a".to_string()),
        CoreError::Io("b".to_string()),
        CoreError::Config("c".to_string()),
        CoreError::Sdp("d".to_string()),
    ];
    let texts: Vec<String> = errors.iter().map(|e| e.to_string()).collect();
    assert!(texts[0].ends_with('a'));
    assert!(texts[2].ends_with('c'));
    assert_ne!(texts[2], texts[3]);
    assert_eq!(IpAddress::V4(0xc0a8_0132).to_string(), "192.168.1.50");
    assert_eq!(IpAddress::V6(0x2001_0db8_0000_0000_0000_0000_0000_0001).to_string(), "2001:db8::1");
}
