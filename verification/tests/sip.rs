use tmwphone::accounts::Transport;
use tmwphone::sip::{
    c_text_of, event_from_c, friendly_call_failure, has_nul, parse_media_aux, SipCommand, SipConfig, SipEngine,
    SipEvent, SOFIA_EV_CALL_CONNECTED, SOFIA_EV_CALL_ENDED, SOFIA_EV_CALL_FAILED, SOFIA_EV_CALL_MEDIA,
    SOFIA_EV_CONSULT_CONNECTED, SOFIA_EV_CONSULT_ENDED, SOFIA_EV_CONSULT_MEDIA, SOFIA_EV_INCOMING_CALL,
    SOFIA_EV_REGISTER_FAIL, SOFIA_EV_REGISTER_OK, SOFIA_EV_TRANSFER_FAILED, SOFIA_EV_TRANSFER_OK,
};

#[test]
fn failure_text_points_at_dns_problems() {
    let s = friendly_call_failure(503, "DNS Error");
    assert!(s.starts_with("Could not route the call"));
    assert_eq!(friendly_call_failure(0, "no dNs here"), s);
}

#[test]
fn failure_text_by_status() {
    assert_eq!(friendly_call_failure(401, "Unauthorized"), "Authentication failed — check the account password in Settings.");
    assert_eq!(friendly_call_failure(407, "x"), "Authentication failed — check the account password in Settings.");
    assert_eq!(friendly_call_failure(403, "x"), "Rejected by the server (forbidden).");
    assert_eq!(friendly_call_failure(404, "x"), "Number not found.");
    assert_eq!(friendly_call_failure(408, "x"), "No response from the SIP server (timed out).");
    assert_eq!(friendly_call_failure(480, "x"), "The number is currently unavailable.");
    assert_eq!(friendly_call_failure(486, "x"), "The line is busy.");
    assert_eq!(friendly_call_failure(600, "x"), "The line is busy.");
    assert_eq!(friendly_call_failure(603, "x"), "Call declined.");
    assert_eq!(friendly_call_failure(500, "Internal"), "Server error (500 Internal).");
    assert_eq!(friendly_call_failure(488, "Not Acceptable Here"), "488 Not Acceptable Here");
    assert_eq!(friendly_call_failure(0, "Stack gone"), "Stack gone");
    assert_eq!(friendly_call_failure(-3, "neg"), "neg");
}

#[test]
fn media_aux_parsing() {
    assert_eq!(parse_media_aux("4000,10.0.0.2,5000,8"), Some((4000, "10.0.0.2".to_string(), 5000, 8)));
    assert_eq!(parse_media_aux("4000,10.0.0.2,5000"), Some((4000, "10.0.0.2".to_string(), 5000, 0)));
    assert_eq!(parse_media_aux("x,h,y,z"), Some((0, "h".to_string(), 0, 0)));
    assert_eq!(parse_media_aux("1,h,2,3,4"), Some((1, "h".to_string(), 2, 0)));
    assert_eq!(parse_media_aux("4000,10.0.0.2"), None);
    assert_eq!(parse_media_aux(""), None);
}

#[test]
fn c_events_become_sip_events() {
    assert!(matches!(event_from_c(SOFIA_EV_REGISTER_OK, 200, None, None), Some(SipEvent::Registered)));
    match event_from_c(SOFIA_EV_REGISTER_FAIL, 403, Some("Forbidden"), None) {
        Some(SipEvent::RegistrationFailed(r)) => assert_eq!(r, "403 Forbidden"),
        other => panic!("unexpected {other:?}"),
    }
    match event_from_c(SOFIA_EV_REGISTER_FAIL, 0, None, None) {
        Some(SipEvent::RegistrationFailed(r)) => assert_eq!(r, "0 "),
        other => panic!("unexpected {other:?}"),
    }
    match event_from_c(SOFIA_EV_INCOMING_CALL, 0, None, Some("Alice <820@pbx>")) {
        Some(SipEvent::IncomingCall { from }) => assert_eq!(from, "Alice <820@pbx>"),
        other => panic!("unexpected {other:?}"),
    }
    match event_from_c(SOFIA_EV_INCOMING_CALL, 0, None, None) {
        Some(SipEvent::IncomingCall { from }) => assert_eq!(from, "Unknown"),
        other => panic!("unexpected {other:?}"),
    }
    assert!(matches!(event_from_c(SOFIA_EV_CALL_CONNECTED, 0, None, None), Some(SipEvent::CallConnected)));
    match event_from_c(SOFIA_EV_CALL_MEDIA, 0, None, Some("4000,1.2.3.4,5000,0")) {
        Some(SipEvent::CallMedia { local_rtp_port, remote_ip, remote_rtp_port, codec }) => {
            assert_eq!((local_rtp_port, remote_ip.as_str(), remote_rtp_port, codec), (4000, "1.2.3.4", 5000, 0));
        }
        other => panic!("unexpected {other:?}"),
    }
    assert!(event_from_c(SOFIA_EV_CALL_MEDIA, 0, None, Some("bad")).is_none());
    assert!(event_from_c(SOFIA_EV_CALL_MEDIA, 0, None, None).is_none());
    assert!(matches!(event_from_c(SOFIA_EV_CALL_ENDED, 0, None, None), Some(SipEvent::CallEnded)));
    match event_from_c(SOFIA_EV_CALL_FAILED, 486, Some("Busy Here"), None) {
        Some(SipEvent::CallFailed(r)) => assert_eq!(r, "The line is busy."),
        other => panic!("unexpected {other:?}"),
    }
    assert!(matches!(event_from_c(SOFIA_EV_TRANSFER_OK, 0, None, None), Some(SipEvent::TransferOk)));
    match event_from_c(SOFIA_EV_TRANSFER_FAILED, 0, Some("nope"), None) {
        Some(SipEvent::TransferFailed(r)) => assert_eq!(r, "nope"),
        other => panic!("unexpected {other:?}"),
    }
    assert!(matches!(event_from_c(SOFIA_EV_CONSULT_CONNECTED, 0, None, None), Some(SipEvent::ConsultConnected)));
    assert!(matches!(
        event_from_c(SOFIA_EV_CONSULT_MEDIA, 0, None, Some("1,h,2,8")),
        Some(SipEvent::ConsultMedia { codec: 8, .. })
    ));
    assert!(matches!(event_from_c(SOFIA_EV_CONSULT_ENDED, 0, None, None), Some(SipEvent::ConsultEnded)));
    assert!(event_from_c(99, 0, None, None).is_none());
    assert!(event_from_c(0, 0, None, None).is_none());
}

#[test]
fn nul_characters_cannot_reach_the_stack() {
    assert_eq!(c_text_of("pbx"), "pbx");
    assert_eq!(c_text_of("p\0bx"), "");
    assert!(has_nul("a\0"));
    assert!(!has_nul("abc"));
}

#[test]
fn start_params_follow_the_account() {
    let p = SipEngine::start_params("pbx", 5070, "proxy\0", Transport::Tls, true, "/ca.pem");
    assert_eq!(p.server, "pbx");
    assert_eq!(p.port, 5070);
    assert_eq!(p.proxy, "");
    assert_eq!(p.transport, 2);
    assert!(p.tls_verify);
    assert_eq!(p.tls_ca_file, "/ca.pem");
}

#[test]
fn a_dead_engine_hands_over_nothing() {
    let (e, ev) = SipEngine::new(false);
    match ev {
        Some(SipEvent::RegistrationFailed(r)) => assert_eq!(r, "SIP stack failed to start"),
        other => panic!("unexpected {other:?}"),
    }
    assert!(e.register(SipConfig {
        server: "pbx".into(),
        username: "u".into(),
        password: "p".into(),
        display_name: "d".into(),
        port: 5060
    })
    .is_none());
    assert!(e.make_call("820").is_none());
    assert!(e.hangup().is_none());
    assert!(e.send_dtmf('5').is_none());
    assert!(e.blind_transfer("a\0b").is_none());
}

#[test]
fn a_running_engine_hands_over_requests() {
    let (e, ev) = SipEngine::new(true);
    assert!(ev.is_none());
    match e.register(SipConfig {
        server: "pbx".into(),
        username: "820".into(),
        password: "se\0cret".into(),
        display_name: "Me".into(),
        port: 5070,
    }) {
        Some(SipCommand::Register { server, port, username, password, display_name }) => {
            assert_eq!(server, "pbx");
            assert_eq!(port, 5070);
            assert_eq!(username, "820");
            assert_eq!(password, "");
            assert_eq!(display_name, "Me");
        }
        _ => panic!("no register request"),
    }
    assert!(matches!(e.make_call("830"), Some(SipCommand::Call(n)) if n == "830"));
    assert!(matches!(e.unregister(), Some(SipCommand::Unregister)));
    assert!(matches!(e.reregister(), Some(SipCommand::Reregister)));
    assert!(matches!(e.answer_call(), Some(SipCommand::Answer)));
    assert!(matches!(e.hangup(), Some(SipCommand::Hangup)));
    assert!(matches!(e.set_hold(true), Some(SipCommand::SetHold(true))));
    assert!(e.set_muted(true).is_none());
    assert!(matches!(e.blind_transfer("840"), Some(SipCommand::BlindTransfer(n)) if n == "840"));
    assert!(matches!(e.start_consultation("850"), Some(SipCommand::StartConsultation(n)) if n == "850"));
    assert!(matches!(e.complete_transfer(), Some(SipCommand::CompleteTransfer)));
    assert!(matches!(e.cancel_consultation(), Some(SipCommand::CancelConsultation)));
}

#[test]
fn dtmf_accepts_digits_star_and_hash() {
    let (e, _) = SipEngine::new(true);
    assert!(matches!(e.send_dtmf('7'), Some(SipCommand::SendDtmf(b'7'))));
    assert!(matches!(e.send_dtmf('*'), Some(SipCommand::SendDtmf(b'*'))));
    assert!(matches!(e.send_dtmf('#'), Some(SipCommand::SendDtmf(b'#'))));
    assert!(e.send_dtmf('A').is_none());
    // Only the low byte of the character counts: U+0131 ends in 0x31 ('1').
    assert!(matches!(e.send_dtmf('\u{131}'), Some(SipCommand::SendDtmf(b'1'))));
}
