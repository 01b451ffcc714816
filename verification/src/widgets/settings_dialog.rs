//! The account editor of the settings dialog: reading back the edited
//! fields into the stored account, removing an account, and the ringer's
//! output device choice.

use vstd::prelude::*;
use crate::accounts::{Account, AccountView, Transport};
use crate::text::{chars_of, dec, parse_unsigned, parse_unsigned_vec, push_char, push_dec};
use crate::window::{account_index, accounts_view, find_account};

verus! {

/// What the editor rows of an account hold when it is saved.
pub struct AccountForm {
    pub display_name: String,
    pub username: String,
    pub server: String,
    /// The text of the port row.
    pub port_text: String,
    pub proxy: String,
    /// The selected row of the transport selector: UDP, TCP, TLS.
    pub transport_index: u32,
    pub tls_verify: bool,
    pub tls_ca_file: String,
    pub register_on_startup: bool,
}

/// The port a port row's text gives: the number it holds, else 5060.
pub open spec fn port_spec(text: Seq<char>) -> u16 {
    match parse_unsigned(text, 65535) {
        Some(p) => p as u16,
        None => 5060,
    }
}

/// The transport at a row of the transport selector.
pub open spec fn transport_spec(index: u32) -> Transport {
    if index == 1 {
        Transport::Tcp
    } else if index == 2 {
        Transport::Tls
    } else {
        Transport::Udp
    }
}

/// The account `a` once the form `f` is saved over it.
pub open spec fn edited(a: AccountView, f: AccountForm) -> AccountView {
    AccountView {
        id: a.id,
        display_name: f.display_name@,
        username: f.username@,
        server: f.server@,
        port: port_spec(f.port_text@),
        proxy: f.proxy@,
        transport: transport_spec(f.transport_index),
        tls_verify: f.tls_verify,
        tls_ca_file: f.tls_ca_file@,
        register_on_startup: f.register_on_startup,
    }
}

/// The accounts other than those with identifier `id`, in order.
pub open spec fn without_account(accounts: Seq<AccountView>, id: Seq<char>) -> Seq<AccountView>
    decreases accounts.len(),
{
    if accounts.len() == 0 {
        Seq::empty()
    } else {
        let rest = without_account(accounts.drop_last(), id);
        if accounts.last().id == id { rest } else { rest.push(accounts.last()) }
    }
}

/// Reads the port row: a port number, or 5060 for anything else.
pub fn parse_port(text: &str) -> (p: u16)
    ensures
        p == port_spec(text@),
{
    let v = chars_of(text);
    assert(v@.subrange(0, v@.len() as int) =~= text@);
    match parse_unsigned_vec(&v, 0, v.len(), 65535) {
        Some(p) => p as u16,
        None => 5060,
    }
}

/// The transport chosen in the transport selector.
pub fn transport_from_index(index: u32) -> (t: Transport)
    ensures
        t == transport_spec(index),
{
    if index == 1 {
        Transport::Tcp
    } else if index == 2 {
        Transport::Tls
    } else {
        Transport::Udp
    }
}

/// The row of the transport selector that shows a transport.
pub fn transport_index(t: Transport) -> (i: u32)
    ensures
        transport_spec(i) == t,
        i == match t {
            Transport::Udp => 0u32,
            Transport::Tcp => 1u32,
            Transport::Tls => 2u32,
        },
{
    match t {
        Transport::Udp => 0,
        Transport::Tcp => 1,
        Transport::Tls => 2,
    }
}

/// The TLS rows show only while TLS is selected.
pub fn tls_rows_visible(index: u32) -> (v: bool)
    ensures
        v == (transport_spec(index) == Transport::Tls),
{
    index == 2
}

/// The subtitle of an account's row: `server:port`.
pub fn account_subtitle(server: &str, port: u16) -> (s: String)
    ensures
        s@ == server@ + seq![':'] + dec(port as nat),
{
    let mut s = String::from_str(server);
    push_char(&mut s, ':');
    push_dec(&mut s, port as u64);
    s
}

/// Saves the form over the account `id`; returns whether there is one.
pub fn save_account(accounts: &mut Vec<Account>, id: &String, form: AccountForm) -> (found: bool)
    ensures
        found == (account_index(accounts_view(old(accounts)@), id@) is Some),
        match account_index(accounts_view(old(accounts)@), id@) {
            Some(k) => accounts_view(final(accounts)@)
                == accounts_view(old(accounts)@).update(k, edited(accounts_view(old(accounts)@)[k], form)),
            None => final(accounts)@ == old(accounts)@,
        },
{
    match find_account(accounts, id) {
        Some(k) => {
            let ghost before = accounts_view(accounts@);
            let port = parse_port(form.port_text.as_str());
            let transport = transport_from_index(form.transport_index);
            let ghost f = form;
            let account = Account {
                id: accounts[k].id.clone(),
                display_name: form.display_name,
                username: form.username,
                server: form.server,
                port,
                proxy: form.proxy,
                transport,
                tls_verify: form.tls_verify,
                tls_ca_file: form.tls_ca_file,
                register_on_startup: form.register_on_startup,
            };
            assert(account@ == edited(before[k as int], f));
            accounts.set(k, account);
            assert(accounts_view(accounts@) =~= before.update(k as int, edited(before[k as int], f)));
            true
        },
        None => false,
    }
}

/// Removes every account with identifier `id`.
pub fn remove_account(accounts: &mut Vec<Account>, id: &String)
    ensures
        accounts_view(final(accounts)@) == without_account(accounts_view(old(accounts)@), id@),
{
    let ghost orig = accounts_view(accounts@);
    let mut kept: Vec<Account> = Vec::new();
    let mut i: usize = 0;
    while i < accounts.len()
        invariant
            i <= accounts@.len(),
            orig == accounts_view(accounts@),
            accounts_view(kept@) == without_account(orig.subrange(0, i as int), id@),
        decreases accounts@.len() - i,
    {
        assert(orig.subrange(0, i + 1).drop_last() =~= orig.subrange(0, i as int));
        assert(orig.subrange(0, i + 1).last() == orig[i as int]);
        if accounts[i].id != *id {
            let ghost before = kept@;
            let a = accounts[i].duplicate();
            kept.push(a);
            assert(accounts_view(kept@) =~= accounts_view(before).push(orig[i as int]));
        }
        i = i + 1;
    }
    assert(orig.subrange(0, orig.len() as int) =~= orig);
    *accounts = kept;
}

/// The setting a row of the ringer's device selector stands for: the
/// first row turns the ringer's own device off (empty), the others name a
/// device.
pub fn ringer_device_value(names: &Vec<String>, row: usize) -> (v: String)
    requires
        row <= names@.len(),
    ensures
        v@ == (if row == 0 { Seq::empty() } else { names@[row - 1]@ }),
{
    if row == 0 { String::new() } else { names[row - 1].clone() }
}

/// The row of the device selector that shows the stored setting `current`:
/// that of the first device with this name, none for an empty setting or
/// an unknown device.
pub fn ringer_device_row(names: &Vec<String>, current: &str) -> (row: Option<usize>)
    ensures
        match row {
            Some(r) => current@.len() > 0 && 1 <= r <= names@.len() && names@[r - 1]@ == current@
                && forall|k: int| 0 <= k < r - 1 ==> (#[trigger] names@[k])@ != current@,
            None => current@.len() == 0 || forall|k: int| 0 <= k < names@.len() ==> (#[trigger] names@[k])@ != current@,
        },
{
    if current.is_empty() {
        return None;
    }
    let want = String::from_str(current);
    let mut i: usize = 0;
    while i < names.len()
        invariant
            i <= names@.len(),
            want@ == current@,
            current@.len() > 0,
            forall|k: int| 0 <= k < i ==> (#[trigger] names@[k])@ != current@,
        decreases names@.len() - i,
    {
        if names[i] == want {
            return Some(i + 1);
        }
        i = i + 1;
    }
    None
}

// ── Registered accounts ──────────────────────────────────────────────────────

/// The accounts the dialog shows as registered: their switches are on, and
/// saving one of them reconnects it.
pub struct RegisteredIds {
    ids: Vec<String>,
}

impl View for RegisteredIds {
    type V = Set<Seq<char>>;

    closed spec fn view(&self) -> Set<Seq<char>> {
        Set::new(|x: Seq<char>| exists|i: int| 0 <= i < self.ids@.len() && (#[trigger] self.ids@[i])@ == x)
    }
}

impl RegisteredIds {
    /// The accounts whose engine is registered when the dialog opens.
    pub fn new(ids: &Vec<String>) -> (r: RegisteredIds)
        ensures
            forall|x: Seq<char>| r@.contains(x) <==> exists|i: int| 0 <= i < ids@.len() && (#[trigger] ids@[i])@ == x,
    {
        let mut v: Vec<String> = Vec::new();
        let mut i: usize = 0;
        while i < ids.len()
            invariant
                i <= ids@.len(),
                v@.len() == i,
                forall|k: int| 0 <= k < i ==> (#[trigger] v@[k])@ == ids@[k]@,
            decreases ids@.len() - i,
        {
            v.push(ids[i].clone());
            i = i + 1;
        }
        let r = RegisteredIds { ids: v };
        assert forall|x: Seq<char>| r@.contains(x) <==> exists|i: int| 0 <= i < ids@.len() && (#[trigger] ids@[i])@ == x by {
            if r@.contains(x) {
                let i = choose|i: int| 0 <= i < r.ids@.len() && (#[trigger] r.ids@[i])@ == x;
                assert(ids@[i]@ == x);
            }
            if exists|i: int| 0 <= i < ids@.len() && (#[trigger] ids@[i])@ == x {
                let i = choose|i: int| 0 <= i < ids@.len() && (#[trigger] ids@[i])@ == x;
                assert(r.ids@[i]@ == x);
            }
        }
        r
    }

    /// Whether the account `id` is shown as registered; saving it then
    /// reconnects it.
    pub fn contains(&self, id: &String) -> (b: bool)
        ensures
            b == self@.contains(id@),
    {
        let mut i: usize = 0;
        while i < self.ids.len()
            invariant
                i <= self.ids@.len(),
                forall|k: int| 0 <= k < i ==> (#[trigger] self.ids@[k])@ != id@,
            decreases self.ids@.len() - i,
        {
            if self.ids[i] == *id {
                assert(self.ids@[i as int]@ == id@);
                return true;
            }
            i = i + 1;
        }
        false
    }

    /// Records that the account's switch was turned on or off, or that the
    /// account was deleted (`registered` false).
    pub fn set_registered(&mut self, id: &String, registered: bool)
        ensures
            final(self)@ == (if registered { old(self)@.insert(id@) } else { old(self)@.remove(id@) }),
    {
        let ghost before = self@;
        if registered {
            if !self.contains(id) {
                let ghost old_ids = self.ids@;
                self.ids.push(id.clone());
                assert forall|x: Seq<char>| #[trigger] self@.contains(x) == before.insert(id@).contains(x) by {
                    if self@.contains(x) {
                        let i = choose|i: int| 0 <= i < self.ids@.len() && (#[trigger] self.ids@[i])@ == x;
                        if i < old_ids.len() {
                            assert(old_ids[i]@ == x);
                        }
                    }
                    if before.contains(x) {
                        let i = choose|i: int| 0 <= i < old_ids.len() && (#[trigger] old_ids[i])@ == x;
                        assert(self.ids@[i]@ == x);
                    }
                    if x == id@ {
                        assert(self.ids@[old_ids.len() as int]@ == x);
                    }
                }
                assert(self@ =~= before.insert(id@));
            } else {
                assert(self@ =~= before.insert(id@));
            }
        } else {
            let mut kept: Vec<String> = Vec::new();
            let mut i: usize = 0;
            while i < self.ids.len()
                invariant
                    i <= self.ids@.len(),
                    before == self@,
                    forall|k: int| 0 <= k < kept@.len() ==> (#[trigger] kept@[k])@ != id@
                        && exists|m: int| 0 <= m < i && (#[trigger] self.ids@[m])@ == kept@[k]@,
                    forall|m: int| 0 <= m < i && (#[trigger] self.ids@[m])@ != id@
                        ==> exists|k: int| 0 <= k < kept@.len() && (#[trigger] kept@[k])@ == self.ids@[m]@,
                decreases self.ids@.len() - i,
            {
                if self.ids[i] != *id {
                    let x = self.ids[i].clone();
                    let ghost prev = kept@;
                    kept.push(x);
                    assert(kept@[kept@.len() - 1]@ == self.ids@[i as int]@);
                    assert forall|k: int| 0 <= k < kept@.len() implies (#[trigger] kept@[k])@ != id@
                        && exists|m: int| 0 <= m < i + 1 && (#[trigger] self.ids@[m])@ == kept@[k]@ by {
                        if k < prev.len() {
                            assert(kept@[k] == prev[k]);
                        } else {
                            assert(self.ids@[i as int]@ == kept@[k]@);
                        }
                    }
                    assert forall|m: int| 0 <= m < i + 1 && (#[trigger] self.ids@[m])@ != id@
                        implies exists|k: int| 0 <= k < kept@.len() && (#[trigger] kept@[k])@ == self.ids@[m]@ by {
                        if m < i {
                            let k = choose|k: int| 0 <= k < prev.len() && (#[trigger] prev[k])@ == self.ids@[m]@;
                            assert(kept@[k] == prev[k]);
                        } else {
                            assert(kept@[kept@.len() - 1]@ == self.ids@[m]@);
                        }
                    }
                }
                i = i + 1;
            }
            let ghost old_ids = self.ids@;
            self.ids = kept;
            assert forall|x: Seq<char>| #[trigger] self@.contains(x) == before.remove(id@).contains(x) by {
                if self@.contains(x) {
                    let k = choose|k: int| 0 <= k < self.ids@.len() && (#[trigger] self.ids@[k])@ == x;
                    let m = choose|m: int| 0 <= m < old_ids.len() && (#[trigger] old_ids[m])@ == self.ids@[k]@;
                    assert(before.contains(x));
                }
                if before.remove(id@).contains(x) {
                    let m = choose|m: int| 0 <= m < old_ids.len() && (#[trigger] old_ids[m])@ == x;
                    let k = choose|k: int| 0 <= k < self.ids@.len() && (#[trigger] self.ids@[k])@ == old_ids[m]@;
                    assert(self@.contains(x));
                }
            }
            assert(self@ =~= before.remove(id@));
        }
    }
}

} // verus!
