use tmwphone::accounts::{accounts_on_load, LegacySettings, default_port, migrate_all, migrate_embedded_port, migrate_legacy, new_id, Account, IdGen, Transport};

fn acct(server: &str, port: u16) -> Account {
    Account { server: server.to_string(), port, ..Default::default() }
}

#[test]
fn transport_default_ports() {
    assert_eq!(Transport::Udp.default_port(), 5060);
    assert_eq!(Transport::Tcp.default_port(), 5060);
    assert_eq!(Transport::Tls.default_port(), 5061);
}

#[test]
fn transport_c_int_mapping() {
    assert_eq!(Transport::Udp.as_c_int(), 0);
    assert_eq!(Transport::Tcp.as_c_int(), 1);
    assert_eq!(Transport::Tls.as_c_int(), 2);
}

#[test]
fn transport_default_is_udp() {
    assert_eq!(Transport::default(), Transport::Udp);
}

#[test]
fn label_prefers_display_name_then_username() {
    let mut ids = IdGen::new();
    let mut a = Account::new(&mut ids);
    assert_eq!(a.label(), "New account");

    a.username = "820".to_string();
    assert_eq!(a.label(), "820");

    a.display_name = "Alice".to_string();
    assert_eq!(a.label(), "Alice");
}

#[test]
fn new_account_has_sane_defaults() {
    let mut ids = IdGen::new();
    let a = Account::new(&mut ids);
    assert!(a.register_on_startup);
    assert!(!a.id.is_empty());
    assert_eq!(a.transport, Transport::Udp);
    assert_eq!(a.port, 0);
}

#[test]
fn new_id_is_unique_and_monotonic_counter() {
    let mut ids = IdGen::new();
    let a = new_id(&mut ids);
    let b = new_id(&mut ids);
    assert_ne!(a, b);
}

#[test]
fn migrate_splits_embedded_port() {
    let mut a = acct("pbx.example.com:5070", 5060);
    migrate_embedded_port(&mut a);
    assert_eq!(a.server, "pbx.example.com");
    assert_eq!(a.port, 5070);
}

#[test]
fn migrate_leaves_plain_host_untouched() {
    let mut a = acct("pbx.example.com", 5060);
    migrate_embedded_port(&mut a);
    assert_eq!(a.server, "pbx.example.com");
    assert_eq!(a.port, 5060);
}

#[test]
fn migrate_skips_when_port_already_customized() {
    let mut a = acct("pbx.example.com:5070", 5061);
    migrate_embedded_port(&mut a);
    assert_eq!(a.server, "pbx.example.com:5070");
    assert_eq!(a.port, 5061);
}

#[test]
fn migrate_ignores_unparseable_or_empty_host() {
    let mut a = acct("pbx.example.com:notaport", 5060);
    migrate_embedded_port(&mut a);
    assert_eq!(a.server, "pbx.example.com:notaport");
    assert_eq!(a.port, 5060);

    let mut b = acct(":5070", 5060);
    migrate_embedded_port(&mut b);
    assert_eq!(b.server, ":5070");
    assert_eq!(b.port, 5060);
}

#[test]
fn migrate_trims_host_and_uses_last_colon() {
    let mut a = acct("  host:1:5080", 5060);
    migrate_embedded_port(&mut a);
    assert_eq!(a.server, "host:1");
    assert_eq!(a.port, 5080);

    let mut b = acct("   :5070", 5060);
    migrate_embedded_port(&mut b);
    assert_eq!(b.server, "   :5070");
    assert_eq!(b.port, 5060);

    let mut c = acct("pbx:70000", 5060);
    migrate_embedded_port(&mut c);
    assert_eq!(c.server, "pbx:70000");
    assert_eq!(c.port, 5060);

    let mut d = acct("pbx:+5071", 5060);
    migrate_embedded_port(&mut d);
    assert_eq!(d.server, "pbx");
    assert_eq!(d.port, 5071);
}

#[test]
fn migrate_all_touches_every_account() {
    let mut accounts = vec![acct("a:5070", 5060), acct("b", 5060), acct("c:5071", 5062)];
    migrate_all(&mut accounts);
    assert_eq!(accounts.len(), 3);
    assert_eq!((accounts[0].server.as_str(), accounts[0].port), ("a", 5070));
    assert_eq!((accounts[1].server.as_str(), accounts[1].port), ("b", 5060));
    assert_eq!((accounts[2].server.as_str(), accounts[2].port), ("c:5071", 5062));
}

#[test]
fn migrate_legacy_needs_user_and_server() {
    let mut ids = IdGen::new();
    assert!(migrate_legacy(&mut ids, "Me".into(), String::new(), "pbx".into(), 5060).is_empty());
    assert!(migrate_legacy(&mut ids, "Me".into(), "820".into(), String::new(), 5060).is_empty());

    let r = migrate_legacy(&mut ids, "Me".into(), "820".into(), "pbx".into(), 5070);
    assert_eq!(r.len(), 1);
    assert_eq!(r[0].display_name, "Me");
    assert_eq!(r[0].username, "820");
    assert_eq!(r[0].server, "pbx");
    assert_eq!(r[0].port, 5070);
    assert_eq!(r[0].transport, Transport::Udp);
    assert!(r[0].register_on_startup);
    assert!(!r[0].tls_verify);
}

#[test]
fn migrate_legacy_clamps_port() {
    let mut ids = IdGen::new();
    let low = migrate_legacy(&mut ids, String::new(), "u".into(), "s".into(), -4);
    assert_eq!(low[0].port, 1);
    let high = migrate_legacy(&mut ids, String::new(), "u".into(), "s".into(), 70000);
    assert_eq!(high[0].port, 65535);
}

#[test]
fn default_port_is_5060() {
    assert_eq!(default_port(), 5060);
    let a: Account = Default::default();
    assert_eq!(a.port, 0);
    assert!(!a.register_on_startup);
}

#[test]
fn ids_end_in_the_padded_counter() {
    let mut ids = IdGen::new();
    let a = new_id(&mut ids);
    let b = new_id(&mut ids);
    assert!(a.ends_with("0000"));
    assert!(b.ends_with("0001"));
    assert!(a.chars().all(|c| c.is_ascii_hexdigit() && !c.is_ascii_uppercase()));
}

#[test]
fn successive_ids_all_differ() {
    let mut ids = IdGen::new();
    let all: Vec<String> = (0..40).map(|_| new_id(&mut ids)).collect();
    for w in all.windows(2) {
        assert_ne!(w[0], w[1]);
    }
}

#[test]
fn duplicate_copies_every_field() {
    let mut ids = IdGen::new();
    let mut a = Account::new(&mut ids);
    a.server = "pbx".into();
    a.transport = Transport::Tls;
    a.tls_ca_file = "/ca.pem".into();
    let b = a.duplicate();
    assert_eq!(b.id, a.id);
    assert_eq!(b.server, "pbx");
    assert_eq!(b.transport, Transport::Tls);
    assert_eq!(b.tls_ca_file, "/ca.pem");
}

#[test]
fn loading_a_saved_list_gives_it_back() {
    let saved = vec![acct("pbx.example.com", 5060), acct("pbx:5070", 5061), acct("other", 5080)];
    let mut loaded: Vec<Account> = saved.iter().map(|a| a.duplicate()).collect();
    migrate_all(&mut loaded);
    for (a, b) in saved.iter().zip(loaded.iter()) {
        assert_eq!(a.server, b.server);
        assert_eq!(a.port, b.port);
    }
}

#[test]
fn loading_prefers_the_parsed_file_over_old_settings() {
    let legacy = || LegacySettings {
        display_name: "Me".into(),
        username: "820".into(),
        server: "pbx".into(),
        port_setting: 0,
    };
    let mut ids = IdGen::new();
    let parsed = vec![acct("a:5070", 5060), acct("b", 5061)];
    let (accounts, save) = accounts_on_load(Some(parsed), &mut ids, legacy());
    assert!(!save);
    assert_eq!((accounts[0].server.as_str(), accounts[0].port), ("a", 5070));
    assert_eq!((accounts[1].server.as_str(), accounts[1].port), ("b", 5061));

    let (fallback, save) = accounts_on_load(None, &mut ids, legacy());
    assert!(save);
    assert_eq!(fallback.len(), 1);
    assert_eq!((fallback[0].username.as_str(), fallback[0].port), ("820", 1));

    let empty = LegacySettings { display_name: String::new(), username: String::new(), server: "pbx".into(), port_setting: 5060 };
    let (none, save) = accounts_on_load(None, &mut ids, empty);
    assert!(none.is_empty());
    assert!(!save);
}
