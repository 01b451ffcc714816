//! SIP accounts: transport, the account record, its label, identifiers,
//! and the migrations from older configuration layouts.

use vstd::prelude::*;
use vstd::string::*;
use crate::clock::unix_nanos;
use crate::text::{
    chars_of, dec, is_digit, lemma_dec, lemma_parse_dec, find_last, lemma_find_last_bounds, parse_unsigned, parse_unsigned_vec, push_char,
    rfind, slice_vec, string_of, trim_by, trim_vec,
};

verus! {

// ── Transport ────────────────────────────────────────────────────────────────

#[derive(Clone, Copy, Debug, PartialEq, Eq, Structural)]
pub enum Transport {
    Udp,
    Tcp,
    Tls,
}

impl Default for Transport {
    fn default() -> (t: Transport)
        ensures
            t == Transport::Udp,
    {
        Transport::Udp
    }
}

impl Transport {
    /// The standard SIP port of the transport: 5061 for TLS, else 5060.
    pub fn default_port(self) -> (p: u16)
        ensures
            p == (if self == Transport::Tls { 5061u16 } else { 5060u16 }),
    {
        match self {
            Transport::Tls => 5061,
            _ => 5060,
        }
    }

    /// The number the SIP stack's C interface uses for the transport.
    pub fn as_c_int(self) -> (n: i32)
        ensures
            n == match self {
                Transport::Udp => 0i32,
                Transport::Tcp => 1i32,
                Transport::Tls => 2i32,
            },
    {
        match self {
            Transport::Udp => 0,
            Transport::Tcp => 1,
            Transport::Tls => 2,
        }
    }
}

/// The port a stored account gets when its record names none.
pub fn default_port() -> (p: u16)
    ensures
        p == 5060,
{
    5060
}

// ── Account ──────────────────────────────────────────────────────────────────

#[derive(Clone, Debug)]
pub struct Account {
    pub id: String,
    pub display_name: String,
    pub username: String,
    pub server: String,
    pub port: u16,
    pub proxy: String,
    pub transport: Transport,
    pub tls_verify: bool,
    pub tls_ca_file: String,
    pub register_on_startup: bool,
}

/// An account as a mathematical value.
pub struct AccountView {
    pub id: Seq<char>,
    pub display_name: Seq<char>,
    pub username: Seq<char>,
    pub server: Seq<char>,
    pub port: u16,
    pub proxy: Seq<char>,
    pub transport: Transport,
    pub tls_verify: bool,
    pub tls_ca_file: Seq<char>,
    pub register_on_startup: bool,
}

impl View for Account {
    type V = AccountView;

    open spec fn view(&self) -> AccountView {
        AccountView {
            id: self.id@,
            display_name: self.display_name@,
            username: self.username@,
            server: self.server@,
            port: self.port,
            proxy: self.proxy@,
            transport: self.transport,
            tls_verify: self.tls_verify,
            tls_ca_file: self.tls_ca_file@,
            register_on_startup: self.register_on_startup,
        }
    }
}

impl Default for Account {
    /// Every text empty, port 0, UDP, no TLS verification, not registered
    /// on startup.
    fn default() -> (a: Account)
        ensures
            a@.id.len() == 0,
            a@.display_name.len() == 0,
            a@.username.len() == 0,
            a@.server.len() == 0,
            a@.port == 0,
            a@.proxy.len() == 0,
            a@.transport == Transport::Udp,
            !a@.tls_verify,
            a@.tls_ca_file.len() == 0,
            !a@.register_on_startup,
    {
        Account {
            id: String::new(),
            display_name: String::new(),
            username: String::new(),
            server: String::new(),
            port: 0,
            proxy: String::new(),
            transport: Transport::Udp,
            tls_verify: false,
            tls_ca_file: String::new(),
            register_on_startup: false,
        }
    }
}

/// The label shown for an account: its display name, else its user name,
/// else "New account".
pub open spec fn label_spec(display_name: Seq<char>, username: Seq<char>) -> Seq<char> {
    if display_name.len() > 0 {
        display_name
    } else if username.len() > 0 {
        username
    } else {
        "New account"@
    }
}

impl Account {
    /// A fresh account with a new identifier, registered on startup and
    /// otherwise empty. The port stays 0: no default port is applied.
    pub fn new(ids: &mut IdGen) -> (a: Account)
        ensures
            a@.id == id_text(final(ids).last_nanos(), old(ids).next_counter() as nat),
            final(ids).next_counter() == old(ids).next_counter().wrapping_add(1),
            a@.display_name.len() == 0,
            a@.username.len() == 0,
            a@.server.len() == 0,
            a@.port == 0,
            a@.proxy.len() == 0,
            a@.transport == Transport::Udp,
            !a@.tls_verify,
            a@.tls_ca_file.len() == 0,
            a@.register_on_startup,
    {
        Account {
            id: new_id(ids),
            display_name: String::new(),
            username: String::new(),
            server: String::new(),
            port: 0,
            proxy: String::new(),
            transport: Transport::Udp,
            tls_verify: false,
            tls_ca_file: String::new(),
            register_on_startup: true,
        }
    }

    /// A copy of the account.
    pub fn duplicate(&self) -> (a: Account)
        ensures
            a@ == self@,
    {
        Account {
            id: self.id.clone(),
            display_name: self.display_name.clone(),
            username: self.username.clone(),
            server: self.server.clone(),
            port: self.port,
            proxy: self.proxy.clone(),
            transport: self.transport,
            tls_verify: self.tls_verify,
            tls_ca_file: self.tls_ca_file.clone(),
            register_on_startup: self.register_on_startup,
        }
    }

    /// The label shown for the account.
    pub fn label(&self) -> (s: String)
        ensures
            s@ == label_spec(self.display_name@, self.username@),
    {
        if !self.display_name.as_str().is_empty() {
            self.display_name.clone()
        } else if !self.username.as_str().is_empty() {
            self.username.clone()
        } else {
            String::from_str("New account")
        }
    }
}

// ── Identifiers ──────────────────────────────────────────────────────────────

pub open spec fn hex_digit(d: nat) -> char {
    if d == 0 { '0' } else if d == 1 { '1' } else if d == 2 { '2' } else if d == 3 { '3' }
    else if d == 4 { '4' } else if d == 5 { '5' } else if d == 6 { '6' } else if d == 7 { '7' }
    else if d == 8 { '8' } else if d == 9 { '9' } else if d == 10 { 'a' } else if d == 11 { 'b' }
    else if d == 12 { 'c' } else if d == 13 { 'd' } else if d == 14 { 'e' } else { 'f' }
}

/// Lower-case hexadecimal digits of `n`, without leading zeros (`{:x}`).
pub open spec fn hex(n: nat) -> Seq<char>
    decreases n,
{
    if n < 16 {
        seq![hex_digit(n)]
    } else {
        hex(n / 16).push(hex_digit(n % 16))
    }
}

/// `n` in hexadecimal padded with zeros to at least four digits (`{:04x}`).
pub open spec fn hex4(n: nat) -> Seq<char> {
    let h = hex(n);
    if h.len() < 4 { Seq::new((4 - h.len()) as nat, |i: int| '0') + h } else { h }
}

/// An account identifier: the clock reading in hexadecimal, then the
/// counter in hexadecimal padded to four digits (`{nanos:x}{ctr:04x}`).
pub open spec fn id_text(nanos: u128, counter: nat) -> Seq<char> {
    hex(nanos as nat) + hex4(counter)
}

/// The source of account identifiers: a counter that tells apart the
/// identifiers made within one clock tick.
pub struct IdGen {
    counter: u64,
    last: u128,
}

impl IdGen {
    /// The counter value the next identifier uses.
    pub closed spec fn next_counter(&self) -> u64 {
        self.counter
    }

    /// The clock reading the last identifier used.
    pub closed spec fn last_nanos(&self) -> u128 {
        self.last
    }

    /// A source whose counter starts at 0 and that has read no clock yet.
    pub fn new() -> (g: IdGen)
        ensures
            g.next_counter() == 0,
            g.last_nanos() == 0,
    {
        IdGen { counter: 0, last: 0 }
    }
}

fn push_hex_digit(s: &mut String, d: u64)
    requires
        d < 16,
    ensures
        final(s)@ == old(s)@.push(hex_digit(d as nat)),
{
    let c: char = if d == 0 { '0' } else if d == 1 { '1' } else if d == 2 { '2' } else if d == 3 { '3' }
        else if d == 4 { '4' } else if d == 5 { '5' } else if d == 6 { '6' } else if d == 7 { '7' }
        else if d == 8 { '8' } else if d == 9 { '9' } else if d == 10 { 'a' } else if d == 11 { 'b' }
        else if d == 12 { 'c' } else if d == 13 { 'd' } else if d == 14 { 'e' } else { 'f' };
    push_char(s, c);
}

fn push_hex(s: &mut String, n: u128)
    ensures
        final(s)@ == old(s)@ + hex(n as nat),
    decreases n,
{
    if n < 16 {
        push_hex_digit(s, n as u64);
        assert(old(s)@.push(hex_digit(n as nat)) =~= old(s)@ + hex(n as nat));
    } else {
        push_hex(s, n / 16);
        push_hex_digit(s, (n % 16) as u64);
        assert(hex(n as nat) == hex((n / 16) as nat).push(hex_digit((n % 16) as nat)));
        assert((old(s)@ + hex((n / 16) as nat)).push(hex_digit((n % 16) as nat)) =~= old(s)@ + hex(n as nat));
    }
}

proof fn lemma_hex_len(n: nat, k: nat)
    requires
        n < pow16(k),
        k > 0,
    ensures
        hex(n).len() <= k,
    decreases k,
{
    if n >= 16 {
        assert(n / 16 < pow16((k - 1) as nat)) by {
            assert(pow16(k) == 16 * pow16((k - 1) as nat));
        }
        if k > 1 {
            lemma_hex_len(n / 16, (k - 1) as nat);
        } else {
            assert(pow16(1) == 16 * pow16(0));
        }
    }
}

pub open spec fn pow16(k: nat) -> nat
    decreases k,
{
    if k == 0 { 1 } else { 16 * pow16((k - 1) as nat) }
}

proof fn lemma_hex_at_least(n: nat, k: nat)
    requires
        n >= pow16(k),
    ensures
        hex(n).len() > k,
    decreases k,
{
    if k > 0 {
        assert(pow16(k) == 16 * pow16((k - 1) as nat));
        assert(n / 16 >= pow16((k - 1) as nat));
        lemma_hex_at_least(n / 16, (k - 1) as nat);
    }
}

/// Appends `n` in hexadecimal padded to four digits.
fn push_hex4(s: &mut String, n: u64)
    ensures
        final(s)@ == old(s)@ + hex4(n as nat),
{
    assert(pow16(1) == 16 && pow16(2) == 256 && pow16(3) == 4096 && pow16(4) == 65536) by {
        reveal_with_fuel(pow16, 5);
    }
    let pad: u64 = if n < 16 { 3 } else if n < 256 { 2 } else if n < 4096 { 1 } else { 0 };
    proof {
        if n < 16 {
            lemma_hex_len(n as nat, 1);
        } else if n < 256 {
            lemma_hex_len(n as nat, 2);
            lemma_hex_at_least(n as nat, 1);
        } else if n < 4096 {
            lemma_hex_len(n as nat, 3);
            lemma_hex_at_least(n as nat, 2);
        } else {
            lemma_hex_at_least(n as nat, 3);
        }
    }
    let ghost h = hex(n as nat);
    assert(pad == (if h.len() < 4 { 4 - h.len() } else { 0 }));
    let mut i: u64 = 0;
    while i < pad
        invariant
            i <= pad <= 3,
            s@ == old(s)@ + Seq::new(i as nat, |k: int| '0'),
        decreases pad - i,
    {
        push_char(s, '0');
        i = i + 1;
        assert(s@ =~= old(s)@ + Seq::new(i as nat, |k: int| '0'));
    }
    push_hex(s, n as u128);
    assert(s@ =~= old(s)@ + hex4(n as nat));
}

/// Makes a new account identifier from the clock and the counter, and
/// advances the counter.
pub fn new_id(ids: &mut IdGen) -> (id: String)
    ensures
        id@ == id_text(final(ids).last_nanos(), old(ids).next_counter() as nat),
        final(ids).next_counter() == old(ids).next_counter().wrapping_add(1),
{
    let nanos = unix_nanos();
    let ctr = ids.counter;
    ids.counter = ctr.wrapping_add(1);
    ids.last = nanos;
    let mut s = String::new();
    push_hex(&mut s, nanos);
    push_hex4(&mut s, ctr);
    assert(s@ =~= id_text(nanos, ctr as nat));
    s
}

proof fn lemma_hex_last(n: nat)
    ensures
        hex(n).len() > 0,
        hex(n).last() == hex_digit(n % 16),
    decreases n,
{
    if n >= 16 {
        lemma_hex_last(n / 16);
    }
}

proof fn lemma_hex4_last(n: nat)
    ensures
        hex4(n).len() > 0,
        hex4(n).last() == hex_digit(n % 16),
{
    lemma_hex_last(n);
}

proof fn lemma_hex_digit_distinct(a: nat, b: nat)
    requires
        a < 16,
        b < 16,
        a != b,
    ensures
        hex_digit(a) != hex_digit(b),
{
}

/// Two identifiers made one after the other by the same source differ,
/// whatever the clock read each time: they end in the last hexadecimal
/// digits of two successive counter values.
pub proof fn lemma_successive_ids_differ(n1: u128, n2: u128, c: u64)
    ensures
        id_text(n1, c as nat) != id_text(n2, c.wrapping_add(1) as nat),
{
    let d = c.wrapping_add(1);
    lemma_hex4_last(c as nat);
    lemma_hex4_last(d as nat);
    assert((c as nat) % 16 != (d as nat) % 16) by {
        if c == u64::MAX {
            assert(d == 0);
        } else {
            assert(d == c + 1);
        }
    }
    lemma_hex_digit_distinct((c as nat) % 16, (d as nat) % 16);
    assert(id_text(n1, c as nat).last() == hex4(c as nat).last());
    assert(id_text(n2, d as nat).last() == hex4(d as nat).last());
}

// ── Migrations ───────────────────────────────────────────────────────────────

/// The server and port that a legacy `"host:port"` server field splits
/// into, when it splits: the port field is still the default 5060, the
/// server has a `':'` followed by a valid port number, and the host before
/// it is not blank once trimmed.
pub open spec fn embedded_port_split(server: Seq<char>, port: u16) -> Option<(Seq<char>, u16)> {
    if port != 5060 {
        None
    } else {
        match find_last(server, ':') {
            None => None,
            Some(c) => match parse_unsigned(server.subrange(c + 1, server.len() as int), 65535) {
                None => None,
                Some(p) => {
                    let host = trim_by(server.subrange(0, c), None);
                    if host.len() == 0 { None } else { Some((host, p as u16)) }
                },
            },
        }
    }
}

/// The account once a legacy `"host:port"` server field is split; every
/// other field stays.
pub open spec fn migrated(a: AccountView) -> AccountView {
    match embedded_port_split(a.server, a.port) {
        Some((host, p)) => AccountView { server: host, port: p, ..a },
        None => a,
    }
}

/// Splits a legacy `"host:port"` server field into separate `server` and
/// `port`. Only applies when `port` is still at the default (5060), the
/// server contains a `:`-suffixed parseable port, and the remaining host is
/// non-empty.
pub fn migrate_embedded_port(account: &mut Account)
    ensures
        match embedded_port_split(old(account)@.server, old(account)@.port) {
            Some((host, p)) => final(account)@.server == host && final(account)@.port == p,
            None => final(account)@.server == old(account)@.server
                && final(account)@.port == old(account)@.port,
        },
        final(account)@.id == old(account)@.id,
        final(account)@.display_name == old(account)@.display_name,
        final(account)@.username == old(account)@.username,
        final(account)@.proxy == old(account)@.proxy,
        final(account)@.transport == old(account)@.transport,
        final(account)@.tls_verify == old(account)@.tls_verify,
        final(account)@.tls_ca_file == old(account)@.tls_ca_file,
        final(account)@.register_on_startup == old(account)@.register_on_startup,
        final(account)@ == migrated(old(account)@),
{
    if account.port != 5060 {
        return;
    }
    let v = chars_of(account.server.as_str());
    let colon = match rfind(&v, ':') {
        Some(c) => c,
        None => { return; },
    };
    proof { lemma_find_last_bounds(v@, ':'); }
    let p = match parse_unsigned_vec(&v, colon + 1, v.len(), 65535) {
        Some(p) => p,
        None => { return; },
    };
    let head = slice_vec(&v, 0, colon);
    let host = trim_vec(&head, None);
    if host.len() == 0 {
        return;
    }
    account.server = string_of(&host, 0, host.len());
    account.port = p as u16;
    proof {
        let m = migrated(old(account)@);
        assert(account@.server =~= m.server);
        assert(account@.port == m.port);
    }
}

/// Applies `migrate_embedded_port` to every account.
pub fn migrate_all(accounts: &mut Vec<Account>)
    ensures
        final(accounts)@.len() == old(accounts)@.len(),
        forall|i: int| 0 <= i < old(accounts)@.len() ==> {
            let a = #[trigger] old(accounts)@[i]@;
            let b = final(accounts)@[i]@;
            &&& match embedded_port_split(a.server, a.port) {
                Some((host, p)) => b.server == host && b.port == p,
                None => b.server == a.server && b.port == a.port,
            }
            &&& b.id == a.id && b.display_name == a.display_name && b.username == a.username
            &&& b.proxy == a.proxy && b.transport == a.transport && b.tls_verify == a.tls_verify
            &&& b.tls_ca_file == a.tls_ca_file && b.register_on_startup == a.register_on_startup
        },
        final(accounts)@.map_values(|a: Account| a@) == old(accounts)@.map_values(|a: Account| migrated(a@)),
{
    let ghost orig = accounts@;
    let mut i: usize = 0;
    while i < accounts.len()
        invariant
            i <= accounts@.len(),
            accounts@.len() == orig.len(),
            forall|k: int| i <= k < orig.len() ==> #[trigger] accounts@[k] == orig[k],
            forall|k: int| 0 <= k < i ==> {
                let a = #[trigger] orig[k]@;
                let b = accounts@[k]@;
                &&& match embedded_port_split(a.server, a.port) {
                    Some((host, p)) => b.server == host && b.port == p,
                    None => b.server == a.server && b.port == a.port,
                }
                &&& b.id == a.id && b.display_name == a.display_name && b.username == a.username
                &&& b.proxy == a.proxy && b.transport == a.transport && b.tls_verify == a.tls_verify
                &&& b.tls_ca_file == a.tls_ca_file && b.register_on_startup == a.register_on_startup
            },
        decreases accounts@.len() - i,
    {
        migrate_embedded_port(&mut accounts[i]);
        i = i + 1;
    }
    assert(accounts@.map_values(|a: Account| a@) =~= orig.map_values(|a: Account| migrated(a@)));
}

/// Loading a saved list of accounts gives the list back: the migration
/// applied on loading leaves every account whose server has no embedded
/// `host:port` split (see `embedded_port_split`) as it is.
pub proof fn lemma_load_keeps_saved_accounts(accounts: Seq<AccountView>)
    requires
        forall|i: int| 0 <= i < accounts.len()
            ==> embedded_port_split(#[trigger] accounts[i].server, accounts[i].port) is None,
    ensures
        accounts.map_values(|a: AccountView| migrated(a)) == accounts,
{
    assert(accounts.map_values(|a: AccountView| migrated(a)) =~= accounts);
}

/// The accounts made from the settings of the single-account layout: none
/// when the user name or the server is empty, else one account registered
/// on startup, over UDP, with the port clamped to 1..=65535.
pub fn migrate_legacy(
    ids: &mut IdGen,
    display_name: String,
    username: String,
    server: String,
    port_setting: i32,
) -> (r: Vec<Account>)
    ensures
        (username@.len() == 0 || server@.len() == 0) ==> r@.len() == 0
            && final(ids).next_counter() == old(ids).next_counter(),
        (username@.len() > 0 && server@.len() > 0) ==> {
            &&& r@.len() == 1
            &&& r@[0]@.id == id_text(final(ids).last_nanos(), old(ids).next_counter() as nat)
            &&& final(ids).next_counter() == old(ids).next_counter().wrapping_add(1)
            &&& r@[0]@.display_name == display_name@
            &&& r@[0]@.username == username@
            &&& r@[0]@.server == server@
            &&& r@[0]@.port == (if port_setting < 1 { 1 } else if port_setting > 65535 { 65535 } else { port_setting })
            &&& r@[0]@.proxy.len() == 0
            &&& r@[0]@.transport == Transport::Udp
            &&& !r@[0]@.tls_verify
            &&& r@[0]@.tls_ca_file.len() == 0
            &&& r@[0]@.register_on_startup
        },
{
    if username.as_str().is_empty() || server.as_str().is_empty() {
        return Vec::new();
    }
    let port: u16 = if port_setting < 1 { 1 } else if port_setting > 65535 { 65535 } else { port_setting as u16 };
    let account = Account {
        id: new_id(ids),
        display_name,
        username,
        server,
        port,
        proxy: String::new(),
        transport: Transport::Udp,
        tls_verify: false,
        tls_ca_file: String::new(),
        register_on_startup: true,
    };
    let mut r: Vec<Account> = Vec::new();
    r.push(account);
    r
}

/// The accounts that the single-account settings give, the new account
/// taking the identifier `id`: none when the user name or the server is
/// empty, else one account registered on startup, over UDP, with the port
/// clamped to 1..=65535.
pub open spec fn legacy_accounts(
    id: Seq<char>,
    display_name: Seq<char>,
    username: Seq<char>,
    server: Seq<char>,
    port_setting: i32,
) -> Seq<AccountView> {
    if username.len() == 0 || server.len() == 0 {
        Seq::empty()
    } else {
        seq![AccountView {
            id,
            display_name,
            username,
            server,
            port: (if port_setting < 1 { 1 } else if port_setting > 65535 { 65535 } else { port_setting }) as u16,
            proxy: Seq::empty(),
            transport: Transport::Udp,
            tls_verify: false,
            tls_ca_file: Seq::empty(),
            register_on_startup: true,
        }]
    }
}

/// The settings of the single-account layout, as stored.
pub struct LegacySettings {
    pub display_name: String,
    pub username: String,
    pub server: String,
    pub port_setting: i32,
}

/// The accounts that loading gives: when the accounts file parsed (as
/// `parsed`), its accounts with their legacy `host:port` servers split, in
/// order; otherwise the accounts migrated from the single-account
/// settings. The flag tells whether the result must be written out: it
/// is set when accounts were migrated from the old settings.
pub fn accounts_on_load(parsed: Option<Vec<Account>>, ids: &mut IdGen, legacy: LegacySettings) -> (r: (Vec<Account>, bool))
    ensures
        match parsed {
            Some(l) => {
                &&& r.0@.map_values(|a: Account| a@) == l@.map_values(|a: Account| migrated(a@))
                &&& !r.1
                &&& final(ids).next_counter() == old(ids).next_counter()
            },
            None => {
                &&& r.0@.map_values(|a: Account| a@) == legacy_accounts(
                    id_text(final(ids).last_nanos(), old(ids).next_counter() as nat),
                    legacy.display_name@,
                    legacy.username@,
                    legacy.server@,
                    legacy.port_setting,
                )
                &&& r.1 == (r.0@.len() > 0)
                &&& final(ids).next_counter() == (if r.0@.len() > 0 {
                    old(ids).next_counter().wrapping_add(1)
                } else {
                    old(ids).next_counter()
                })
            },
        },
{
    match parsed {
        Some(mut l) => {
            migrate_all(&mut l);
            (l, false)
        },
        None => {
            let ghost (dn, un, sv) = (legacy.display_name@, legacy.username@, legacy.server@);
            let r = migrate_legacy(ids, legacy.display_name, legacy.username, legacy.server, legacy.port_setting);
            let ghost lg = legacy_accounts(id_text(ids.last_nanos(), old(ids).next_counter() as nat), dn, un, sv, legacy.port_setting);
            proof {
                if r@.len() > 0 {
                    assert(r@[0]@.proxy =~= Seq::<char>::empty());
                    assert(r@[0]@.tls_ca_file =~= Seq::<char>::empty());
                    assert(r@[0]@ == lg[0]);
                }
            }
            assert(r@.map_values(|a: Account| a@) =~= lg);
            let save = r.len() > 0;
            (r, save)
        },
    }
}

/// A legacy server field `host:port` is split whenever the port field is
/// still 5060, the part after the colon is a port number (any one, 5060
/// included) and the host is not blank: the account then has the trimmed
/// host as its server and that port; nothing else changes.
pub proof fn lemma_embedded_port_is_split(a: AccountView, host: Seq<char>, p: nat)
    requires
        a.port == 5060,
        p <= 65535,
        a.server == host + seq![':'] + dec(p),
        trim_by(host, None).len() > 0,
    ensures
        migrated(a) == (AccountView { server: trim_by(host, None), port: p as u16, ..a }),
{
    let s = a.server;
    let c = host.len() as int;
    lemma_dec(p);
    lemma_find_last_bounds(s, ':');
    assert(s[c] == ':');
    assert forall|m: int| c < m < s.len() implies s[m] != ':' by {
        assert(s[m] == dec(p)[m - c - 1]);
        assert(is_digit(dec(p)[m - c - 1]));
    }
    assert(find_last(s, ':') == Some(c));
    assert(s.subrange(c + 1, s.len() as int) =~= dec(p));
    assert(s.subrange(0, c) =~= host);
    lemma_parse_dec(p, 65535);
}

} // verus!
