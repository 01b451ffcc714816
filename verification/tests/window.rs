use tmwphone::accounts::{Account, Transport};
use tmwphone::call_log::{CallLog, Direction, Status};
use tmwphone::ringer::RingTone;
use tmwphone::sip::SipEvent;
use tmwphone::window::{UiAction, WindowState};

fn account(id: &str, user: &str, server: &str, on_startup: bool) -> Account {
    Account {
        id: id.to_string(),
        username: user.to_string(),
        server: server.to_string(),
        port: 5060,
        transport: Transport::Udp,
        register_on_startup: on_startup,
        ..Default::default()
    }
}

fn accounts() -> Vec<Account> {
    vec![account("a", "820", "pbx", true), account("b", "830", "pbx2", false)]
}

fn toast_text(a: &UiAction) -> Option<(&str, Option<u32>, bool)> {
    match a {
        UiAction::Toast { text, timeout, copy_button } => Some((text.as_str(), *timeout, *copy_button)),
        _ => None,
    }
}

fn registered_window() -> WindowState {
    let accs = accounts();
    let mut w = WindowState::new(CallLog::new());
    w.startup(&accs, 1000);
    w.handle_sip_event("a".into(), SipEvent::Registered, 1001, &accs);
    w
}

#[test]
fn startup_without_accounts_asks_for_configuration() {
    let mut w = WindowState::new(CallLog::new());
    let acts = w.startup(&Vec::new(), 0);
    assert_eq!(acts.len(), 1);
    match &acts[0] {
        UiAction::ShowBanner { title, button } => {
            assert_eq!(title, "No accounts configured — tap Configure");
            assert_eq!(button.as_deref(), Some("Configure"));
        }
        _ => panic!("expected a banner"),
    }
    assert!(w.engines.is_empty());
}

#[test]
fn startup_connects_accounts_registered_on_startup() {
    let mut w = WindowState::new(CallLog::new());
    let acts = w.startup(&accounts(), 1000);
    assert_eq!(acts.len(), 3);
    assert!(matches!(&acts[0], UiAction::ShowBanner { title, button: None } if title == "Registering…"));
    assert!(matches!(&acts[1], UiAction::StartEngine(a) if a.id == "a"));
    assert!(matches!(&acts[2], UiAction::StartKeepalive));
    assert_eq!(w.engines.len(), 1);
    assert_eq!(w.engines[0].account_id, "a");
    assert!(!w.engines[0].registered);
    assert_eq!(w.engines[0].last_register_ok, Some(1000));
    assert!(w.keepalive_started);
}

#[test]
fn startup_with_nothing_on_startup_does_nothing() {
    let mut w = WindowState::new(CallLog::new());
    let acts = w.startup(&vec![account("b", "830", "pbx2", false)], 0);
    assert!(acts.is_empty());
    assert!(w.engines.is_empty());
}

#[test]
fn first_registration_is_announced() {
    let accs = accounts();
    let mut w = WindowState::new(CallLog::new());
    w.startup(&accs, 1000);
    let acts = w.handle_sip_event("a".into(), SipEvent::Registered, 1001, &accs);
    assert_eq!(acts.len(), 3);
    assert!(matches!(acts[0], UiAction::HideBanner));
    assert_eq!(toast_text(&acts[1]), Some(("Registered as 820@pbx", Some(4), false)));
    assert!(matches!(acts[2], UiAction::RefreshDialpadAccounts));
    assert!(w.engines[0].registered);
    assert_eq!(w.engines[0].last_register_ok, Some(1001));

    let again = w.handle_sip_event("a".into(), SipEvent::Registered, 1040, &accs);
    assert_eq!(again.len(), 1);
    assert!(matches!(again[0], UiAction::HideBanner));
}

#[test]
fn failed_registration_shows_reconnect_banner() {
    let accs = accounts();
    let mut w = registered_window();
    let acts = w.handle_sip_event("a".into(), SipEvent::RegistrationFailed("403 Forbidden".into()), 1100, &accs);
    assert!(!w.engines[0].registered);
    assert_eq!(w.engines[0].last_register_ok, Some(1001));
    match &acts[0] {
        UiAction::ShowBanner { title, button } => {
            assert_eq!(title, "820: Registration failed: 403 Forbidden");
            assert_eq!(button.as_deref(), Some("Reconnect"));
        }
        _ => panic!("expected a banner"),
    }
    assert!(matches!(acts[1], UiAction::RefreshDialpadAccounts));
}

#[test]
fn calling_needs_a_registered_account() {
    let accs = accounts();
    let mut w = WindowState::new(CallLog::new());
    w.startup(&accs, 1000);
    let acts = w.start_call("830", "", 1002);
    assert_eq!(acts.len(), 1);
    assert_eq!(toast_text(&acts[0]), Some(("No registered account — configure SIP account first", None, false)));
    assert!(w.active_account_id.is_none());
    assert!(w.pending_call.is_none());
}

#[test]
fn an_outgoing_call_goes_through_the_registered_engine() {
    let mut w = registered_window();
    let acts = w.start_call("830", "", 2000);
    assert_eq!(acts.len(), 6);
    assert!(matches!(&acts[0], UiAction::SetCaller(n) if n == "830"));
    assert!(matches!(&acts[1], UiAction::SetDuration(t) if t == "Calling…"));
    assert!(matches!(acts[2], UiAction::ShowAnswerButton(false)));
    assert!(matches!(acts[3], UiAction::ShowCallScreen(true)));
    assert!(matches!(acts[4], UiAction::StartRinger(RingTone::Ringback)));
    assert!(matches!(&acts[5], UiAction::Dial { account_id, number } if account_id == "a" && number == "830"));
    assert_eq!(w.active_account_id.as_deref(), Some("a"));
    assert_eq!(w.active_engine().as_deref(), Some("a"));
    assert_eq!(w.primary_caller, "830");
    let p = w.pending_call.as_ref().unwrap();
    assert_eq!((p.direction, p.number.as_str(), p.started_at, p.connected_at), (Direction::Outgoing, "830", 2000, None));
}

#[test]
fn a_named_account_must_itself_be_registered() {
    let mut w = registered_window();
    let acts = w.start_call("830", "b", 2000);
    assert_eq!(acts.len(), 1);
    assert!(toast_text(&acts[0]).is_some());
    let ok = w.start_call("830", "a", 2000);
    assert!(matches!(&ok[5], UiAction::Dial { account_id, .. } if account_id == "a"));
}

#[test]
fn an_answered_call_is_logged_with_its_duration() {
    let accs = accounts();
    let mut w = registered_window();
    w.start_call("830", "", 2000);
    let c = w.handle_sip_event("a".into(), SipEvent::CallConnected, 2010, &accs);
    assert!(matches!(c[0], UiAction::StopRinger));
    assert!(matches!(c[2], UiAction::StartTimer));
    let m = w.handle_sip_event(
        "a".into(),
        SipEvent::CallMedia { local_rtp_port: 4000, remote_ip: "1.2.3.4".into(), remote_rtp_port: 5000, codec: 8 },
        2011,
        &accs,
    );
    assert!(matches!(&m[0], UiAction::StartAudio(md) if md.codec == 8 && md.remote_ip == "1.2.3.4"));
    assert!(w.audio_started(Ok(())).is_empty());
    assert!(w.audio_active);
    let end = w.handle_sip_event("a".into(), SipEvent::CallEnded, 2075, &accs);
    assert_eq!(end.len(), 8);
    assert!(matches!(end[5], UiAction::ClearDialpad));
    assert!(matches!(end[6], UiAction::PrependCallRow));
    assert!(matches!(end[7], UiAction::SaveCallLog));
    assert!(w.active_account_id.is_none());
    assert!(w.pending_call.is_none());
    assert!(!w.audio_active);
    let r = &w.call_log.records[0];
    assert_eq!((r.direction, r.status, r.number.as_str(), r.started_at, r.duration_secs), (Direction::Outgoing, Status::Answered, "830", 2000, 65));
}

#[test]
fn an_unanswered_incoming_call_is_missed() {
    let accs = accounts();
    let mut w = registered_window();
    let acts = w.handle_sip_event("a".into(), SipEvent::IncomingCall { from: "\"Bob\" <sip:830@pbx>".into() }, 3000, &accs);
    assert!(matches!(&acts[0], UiAction::SetCaller(n) if n == "Bob"));
    assert!(matches!(&acts[1], UiAction::SetDuration(t) if t == "Incoming call…"));
    assert!(matches!(acts[4], UiAction::StartRinger(RingTone::Incoming)));
    assert_eq!(w.primary_caller, "\"Bob\" <sip:830@pbx>");
    let end = w.handle_sip_event("a".into(), SipEvent::CallFailed("Call declined.".into()), 3010, &accs);
    assert_eq!(toast_text(&end[5]), Some(("Call failed: Call declined.", Some(10), true)));
    let r = &w.call_log.records[0];
    assert_eq!((r.direction, r.status, r.duration_secs), (Direction::Incoming, Status::Missed, 0));
}

#[test]
fn an_unanswered_outgoing_call_failed() {
    let accs = accounts();
    let mut w = registered_window();
    w.start_call("830", "", 2000);
    w.handle_sip_event("a".into(), SipEvent::CallEnded, 2005, &accs);
    assert_eq!(w.call_log.records[0].status, Status::Failed);
}

#[test]
fn a_transfer_ends_the_call() {
    let accs = accounts();
    let mut w = registered_window();
    w.start_call("830", "", 2000);
    w.handle_sip_event("a".into(), SipEvent::CallConnected, 2001, &accs);
    let acts = w.handle_sip_event("a".into(), SipEvent::TransferOk, 2031, &accs);
    assert_eq!(toast_text(acts.last().unwrap()), Some(("Call transferred successfully", Some(4), false)));
    assert_eq!(w.call_log.records[0].duration_secs, 30);
    assert!(w.active_account_id.is_none());
}

#[test]
fn consultation_events() {
    let accs = accounts();
    let mut w = registered_window();
    w.start_call("830", "", 2000);
    let c = w.handle_sip_event("a".into(), SipEvent::ConsultConnected, 2001, &accs);
    assert!(matches!(&c[0], UiAction::EnterConsultMode(n) if n == "830"));
    let e = w.consult_audio_started(Err("no device".into()));
    assert_eq!(toast_text(&e[0]), Some(("Consult audio failed: no device", Some(10), true)));
    w.audio_started(Ok(()));
    let end = w.handle_sip_event("a".into(), SipEvent::ConsultEnded, 2002, &accs);
    assert_eq!(end.len(), 3);
    assert!(matches!(end[2], UiAction::ResumeAudio));
    let t = w.handle_sip_event("a".into(), SipEvent::TransferFailed("busy".into()), 2003, &accs);
    assert_eq!(toast_text(&t[0]), Some(("Transfer failed: busy", Some(10), true)));
}

#[test]
fn no_reconnect_while_a_call_is_in_progress() {
    let accs = accounts();
    let mut w = registered_window();
    w.start_call("830", "", 2000);
    assert!(w.network_changed(true, 5000, &accs).is_empty());
    let tick = w.keepalive_tick(9000, &accs);
    assert_eq!(tick.len(), 1);
    assert!(matches!(&tick[0], UiAction::Reregister(id) if id == "a"));
    assert_eq!(w.engines.len(), 1);
}

#[test]
fn network_return_reconnects_idle_stale_engines() {
    let accs = accounts();
    let mut w = registered_window();
    assert!(w.network_changed(true, 1020, &accs).is_empty());
    assert!(w.network_changed(false, 5000, &accs).is_empty());
    let acts = w.network_changed(true, 5000, &accs);
    assert!(matches!(acts[0], UiAction::DropAllEngines));
    assert!(matches!(&acts[1], UiAction::StartEngine(a) if a.id == "a"));
    assert_eq!(w.engines.len(), 1);
    assert!(!w.engines[0].registered);
    assert_eq!(w.engines[0].last_register_ok, Some(5000));
}

#[test]
fn keepalive_reconnects_stale_registrations() {
    let accs = accounts();
    let mut w = registered_window();
    let fresh = w.keepalive_tick(1100, &accs);
    assert_eq!(fresh.len(), 1);
    let stale = w.keepalive_tick(1200, &accs);
    assert!(matches!(&stale[0], UiAction::Reregister(id) if id == "a"));
    assert!(matches!(&stale[1], UiAction::DropEngine(id) if id == "a"));
    assert!(matches!(stale[2], UiAction::RefreshDialpadAccounts));
    assert!(matches!(&stale[3], UiAction::StartEngine(a) if a.id == "a"));
    assert_eq!(stale.len(), 4);
    assert_eq!(w.engines.len(), 1);
    assert_eq!(w.engines[0].last_register_ok, Some(1200));
}

#[test]
fn connecting_twice_keeps_one_engine() {
    let accs = accounts();
    let mut w = registered_window();
    let mut acts = Vec::new();
    w.connect_account(&accs[0], 3000, &mut acts);
    assert!(acts.is_empty());
    w.connect_account(&account("c", "u", "", true), 3000, &mut acts);
    assert!(acts.is_empty());
    w.connect_account(&accs[1], 3000, &mut acts);
    assert_eq!(acts.len(), 1);
    assert!(matches!(&acts[0], UiAction::StartEngine(a) if a.id == "b"));
    assert_eq!(w.engines.len(), 2);
}

#[test]
fn disconnecting_and_reconnecting_by_id() {
    let accs = accounts();
    let mut w = registered_window();
    let d = w.disconnect_account(&"a".to_string());
    assert!(matches!(&d[0], UiAction::DropEngine(id) if id == "a"));
    assert!(w.engines.is_empty());
    let r = w.connect_account_by_id(&"b".to_string(), &accs, 4000);
    assert_eq!(r.len(), 3);
    assert_eq!(w.engines[0].account_id, "b");
    let gone = w.connect_account_by_id(&"zzz".to_string(), &accs, 4000);
    assert_eq!(gone.len(), 2);
    assert_eq!(w.engines.len(), 1);
}

#[test]
fn dialpad_and_settings_see_registered_accounts() {
    let accs = accounts();
    let mut w = registered_window();
    let mut acts = Vec::new();
    w.connect_account(&accs[1], 1002, &mut acts);
    assert_eq!(w.registered_choices(&accs), vec![("a".to_string(), "820".to_string())]);
    assert_eq!(w.registered_ids(), vec!["a".to_string()]);
    w.handle_sip_event("b".into(), SipEvent::Registered, 1003, &accs);
    assert_eq!(w.registered_ids(), vec!["a".to_string(), "b".to_string()]);
    assert_eq!(w.active_engine(), None);
}

#[test]
fn audio_failure_is_reported() {
    let mut w = WindowState::new(CallLog::new());
    let acts = w.audio_started(Err("no sink".into()));
    assert_eq!(toast_text(&acts[0]), Some(("Audio failed: no sink", Some(10), true)));
    assert!(!w.audio_active);
}

#[test]
fn mute_silences_running_audio_only() {
    let accs = accounts();
    let mut w = registered_window();
    assert!(w.mute_toggled(true).is_empty());
    w.start_call("830", "", 2000);
    w.handle_sip_event("a".into(), SipEvent::CallConnected, 2001, &accs);
    w.audio_started(Ok(()));
    let on = w.mute_toggled(true);
    assert_eq!(on.len(), 1);
    assert!(matches!(on[0], UiAction::MuteAudio(true)));
    assert!(matches!(w.mute_toggled(false)[0], UiAction::MuteAudio(false)));
}
