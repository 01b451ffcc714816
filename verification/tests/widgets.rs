use tmwphone::accounts::{Account, IdGen, Transport};
use tmwphone::audio::{codec_plan, send_state, SendState};
use tmwphone::config::Config;
use tmwphone::ringer::{cadence_ms, frequency_hz, Cadence, RingTone};
use tmwphone::widgets::call_screen::{dtmf_digit, elapsed_text};
use tmwphone::widgets::dialpad::{backspace, can_dial, chosen_account, selector_visible, with_digit};
use tmwphone::widgets::settings_dialog::{
    account_subtitle, parse_port, remove_account, ringer_device_row, ringer_device_value, save_account,
    tls_rows_visible, transport_from_index, transport_index, AccountForm, RegisteredIds,
};

fn ids(v: &[&str]) -> Vec<String> {
    v.iter().map(|s| s.to_string()).collect()
}

#[test]
fn dialpad_account_choice() {
    let two = ids(&["a", "b"]);
    assert_eq!(chosen_account(&two, true, 1), "b");
    assert_eq!(chosen_account(&two, true, 5), "");
    assert_eq!(chosen_account(&two, false, 1), "a");
    assert_eq!(chosen_account(&Vec::new(), false, 0), "");
    assert!(!selector_visible(1));
    assert!(selector_visible(2));
}

#[test]
fn dialpad_number_editing() {
    assert_eq!(with_digit("82", "0"), "820");
    assert_eq!(backspace("820"), "82");
    assert_eq!(backspace(""), "");
    assert_eq!(backspace("é"), "");
    assert!(can_dial("1"));
    assert!(!can_dial(""));
}

#[test]
fn call_clock_format() {
    assert_eq!(elapsed_text(0), "00:00");
    assert_eq!(elapsed_text(65), "01:05");
    assert_eq!(elapsed_text(3599), "59:59");
    assert_eq!(elapsed_text(3600), "1:00:00");
    assert_eq!(elapsed_text(36_061), "10:01:01");
}

#[test]
fn dtmf_key_sends_first_character() {
    assert_eq!(dtmf_digit("5"), Some('5'));
    assert_eq!(dtmf_digit("#x"), Some('#'));
    assert_eq!(dtmf_digit(""), None);
}

#[test]
fn port_row_parsing() {
    assert_eq!(parse_port("5070"), 5070);
    assert_eq!(parse_port(""), 5060);
    assert_eq!(parse_port("70000"), 5060);
    assert_eq!(parse_port(" 5070"), 5060);
    assert_eq!(parse_port("+5071"), 5071);
    assert_eq!(parse_port("0"), 0);
}

#[test]
fn transport_selector_rows() {
    assert_eq!(transport_from_index(0), Transport::Udp);
    assert_eq!(transport_from_index(1), Transport::Tcp);
    assert_eq!(transport_from_index(2), Transport::Tls);
    assert_eq!(transport_from_index(9), Transport::Udp);
    for t in [Transport::Udp, Transport::Tcp, Transport::Tls] {
        assert_eq!(transport_from_index(transport_index(t)), t);
    }
    assert!(tls_rows_visible(2));
    assert!(!tls_rows_visible(1));
}

#[test]
fn account_row_subtitle() {
    assert_eq!(account_subtitle("pbx.example.com", 5060), "pbx.example.com:5060");
    assert_eq!(account_subtitle("", 0), ":0");
}

fn form(port: &str, transport_index: u32) -> AccountForm {
    AccountForm {
        display_name: "Desk".into(),
        username: "820".into(),
        server: "pbx".into(),
        port_text: port.into(),
        proxy: "proxy".into(),
        transport_index,
        tls_verify: true,
        tls_ca_file: "/ca.pem".into(),
        register_on_startup: false,
    }
}

#[test]
fn saving_the_editor_updates_only_that_account() {
    let mut g = IdGen::new();
    let a = Account::new(&mut g);
    let b = Account::new(&mut g);
    let id_b = b.id.clone();
    let mut accounts = vec![a.duplicate(), b];
    assert!(save_account(&mut accounts, &id_b, form("5070", 2)));
    assert_eq!(accounts[0].id, a.id);
    assert_eq!(accounts[0].username, "");
    let s = &accounts[1];
    assert_eq!(s.id, id_b);
    assert_eq!(s.display_name, "Desk");
    assert_eq!(s.username, "820");
    assert_eq!(s.server, "pbx");
    assert_eq!(s.port, 5070);
    assert_eq!(s.proxy, "proxy");
    assert_eq!(s.transport, Transport::Tls);
    assert!(s.tls_verify);
    assert_eq!(s.tls_ca_file, "/ca.pem");
    assert!(!s.register_on_startup);

    assert!(save_account(&mut accounts, &id_b, form("bad", 7)));
    assert_eq!(accounts[1].port, 5060);
    assert_eq!(accounts[1].transport, Transport::Udp);

    assert!(!save_account(&mut accounts, &"nope".to_string(), form("1", 0)));
    assert_eq!(accounts.len(), 2);
}

#[test]
fn removing_an_account() {
    let mut g = IdGen::new();
    let a = Account::new(&mut g);
    let b = Account::new(&mut g);
    let id_a = a.id.clone();
    let id_b = b.id.clone();
    let mut accounts = vec![a, b];
    remove_account(&mut accounts, &id_a);
    assert_eq!(accounts.len(), 1);
    assert_eq!(accounts[0].id, id_b);
    remove_account(&mut accounts, &"unknown".to_string());
    assert_eq!(accounts.len(), 1);
}

#[test]
fn ringer_device_selector() {
    let names = ids(&["Speakers", "Headset"]);
    assert_eq!(ringer_device_value(&names, 0), "");
    assert_eq!(ringer_device_value(&names, 2), "Headset");
    assert_eq!(ringer_device_row(&names, "Headset"), Some(2));
    assert_eq!(ringer_device_row(&names, ""), None);
    assert_eq!(ringer_device_row(&names, "HDMI"), None);
}

#[test]
fn codec_plans() {
    let a = codec_plan(8);
    assert_eq!((a.payload_type, a.encoding_name), (8, "PCMA"));
    assert_eq!((a.depayloader, a.decoder, a.encoder, a.payloader), ("rtppcmadepay", "alawdec", "alawenc", "rtppcmapay"));
    let u = codec_plan(0);
    assert_eq!((u.payload_type, u.encoding_name), (0, "PCMU"));
    assert_eq!((u.depayloader, u.decoder, u.encoder, u.payloader), ("rtppcmudepay", "mulawdec", "mulawenc", "rtppcmupay"));
    assert_eq!(codec_plan(18).encoding_name, "PCMU");
    assert_eq!(send_state(true), SendState::Paused);
    assert_eq!(send_state(false), SendState::Playing);
}

#[test]
fn ringer_patterns() {
    assert_eq!(frequency_hz(RingTone::Incoming), 440);
    assert_eq!(frequency_hz(RingTone::Ringback), 425);
    assert_eq!(cadence_ms(RingTone::Incoming), vec![400, 200, 400, 2000]);
    assert_eq!(cadence_ms(RingTone::Ringback), vec![1000, 3000]);
}

#[test]
fn cadence_alternates_and_wraps() {
    let mut c = Cadence::new(RingTone::Incoming);
    assert_eq!(c.delay_ms(), 400);
    assert!(!c.advance());
    assert_eq!(c.delay_ms(), 200);
    assert!(c.advance());
    assert_eq!(c.delay_ms(), 400);
    assert!(!c.advance());
    assert_eq!(c.delay_ms(), 2000);
    assert!(c.advance());
    assert_eq!(c.delay_ms(), 400);
}

#[test]
fn legacy_config() {
    let c = Config {
        server: "pbx".into(),
        username: "820".into(),
        password: "pw".into(),
        display_name: "Me".into(),
        port_setting: 70_000,
    };
    assert!(c.is_configured());
    assert_eq!(c.port(), (70_000u32 & 0xffff) as u16);
    assert_eq!(c.server(), "pbx");
    let empty = Config { username: String::new(), ..c };
    assert!(!empty.is_configured());
}

#[test]
fn registered_switches_follow_toggles_and_deletes() {
    let mut r = RegisteredIds::new(&ids(&["a", "b"]));
    assert!(r.contains(&"a".to_string()));
    assert!(!r.contains(&"c".to_string()));
    r.set_registered(&"c".to_string(), true);
    r.set_registered(&"c".to_string(), true);
    assert!(r.contains(&"c".to_string()));
    r.set_registered(&"a".to_string(), false);
    assert!(!r.contains(&"a".to_string()));
    assert!(r.contains(&"b".to_string()));
}
