//! The SIP side of the phone: the events the SIP stack reports, how the
//! stack's raw callbacks become those events, the failure messages shown to
//! the user, and the requests an engine hands to the stack.

use vstd::prelude::*;
use vstd::string::*;
use crate::accounts::Transport;
use crate::text::{
    append_str, chars_of, dec_signed, fields_from, find_after, has_char, parse_unsigned,
    parse_unsigned_vec, push_char, push_dec_i64, string_of,
};

verus! {

// ── Event codes of the C layer ───────────────────────────────────────────────

pub const SOFIA_EV_REGISTER_OK: i32 = 1;
pub const SOFIA_EV_REGISTER_FAIL: i32 = 2;
pub const SOFIA_EV_INCOMING_CALL: i32 = 3;
pub const SOFIA_EV_CALL_CONNECTED: i32 = 4;
pub const SOFIA_EV_CALL_ENDED: i32 = 5;
pub const SOFIA_EV_CALL_FAILED: i32 = 6;
pub const SOFIA_EV_CALL_MEDIA: i32 = 7;
pub const SOFIA_EV_TRANSFER_OK: i32 = 8;
pub const SOFIA_EV_TRANSFER_FAILED: i32 = 9;
pub const SOFIA_EV_CONSULT_CONNECTED: i32 = 10;
pub const SOFIA_EV_CONSULT_MEDIA: i32 = 11;
pub const SOFIA_EV_CONSULT_ENDED: i32 = 12;

// ── Public event type ─────────────────────────────────────────────────────────

#[derive(Debug, Clone)]
pub enum SipEvent {
    Registered,
    RegistrationFailed(String),
    IncomingCall { from: String },
    CallConnected,
    /// Fired after `CallConnected` once SDP has been negotiated; the audio
    /// session starts with these parameters.
    CallMedia { local_rtp_port: u16, remote_ip: String, remote_rtp_port: u16, codec: u8 },
    CallEnded,
    CallFailed(String),
    TransferOk,
    TransferFailed(String),
    ConsultConnected,
    ConsultMedia { local_rtp_port: u16, remote_ip: String, remote_rtp_port: u16, codec: u8 },
    ConsultEnded,
}

/// An event as a mathematical value.
pub enum SipEventView {
    Registered,
    RegistrationFailed(Seq<char>),
    IncomingCall { from: Seq<char> },
    CallConnected,
    CallMedia { local_rtp_port: u16, remote_ip: Seq<char>, remote_rtp_port: u16, codec: u8 },
    CallEnded,
    CallFailed(Seq<char>),
    TransferOk,
    TransferFailed(Seq<char>),
    ConsultConnected,
    ConsultMedia { local_rtp_port: u16, remote_ip: Seq<char>, remote_rtp_port: u16, codec: u8 },
    ConsultEnded,
}

impl View for SipEvent {
    type V = SipEventView;

    open spec fn view(&self) -> SipEventView {
        match self {
            SipEvent::Registered => SipEventView::Registered,
            SipEvent::RegistrationFailed(r) => SipEventView::RegistrationFailed(r@),
            SipEvent::IncomingCall { from } => SipEventView::IncomingCall { from: from@ },
            SipEvent::CallConnected => SipEventView::CallConnected,
            SipEvent::CallMedia { local_rtp_port, remote_ip, remote_rtp_port, codec } => SipEventView::CallMedia {
                local_rtp_port: *local_rtp_port,
                remote_ip: remote_ip@,
                remote_rtp_port: *remote_rtp_port,
                codec: *codec,
            },
            SipEvent::CallEnded => SipEventView::CallEnded,
            SipEvent::CallFailed(r) => SipEventView::CallFailed(r@),
            SipEvent::TransferOk => SipEventView::TransferOk,
            SipEvent::TransferFailed(r) => SipEventView::TransferFailed(r@),
            SipEvent::ConsultConnected => SipEventView::ConsultConnected,
            SipEvent::ConsultMedia { local_rtp_port, remote_ip, remote_rtp_port, codec } => SipEventView::ConsultMedia {
                local_rtp_port: *local_rtp_port,
                remote_ip: remote_ip@,
                remote_rtp_port: *remote_rtp_port,
                codec: *codec,
            },
            SipEvent::ConsultEnded => SipEventView::ConsultEnded,
        }
    }
}

// ── Config passed to register() ───────────────────────────────────────────────

pub struct SipConfig {
    pub server: String,
    pub username: String,
    pub password: String,
    pub display_name: String,
    pub port: u16,
}

// ── Failure messages ─────────────────────────────────────────────────────────

/// Whether `s` contains "dns" in any mix of ASCII case
/// (`s.to_ascii_lowercase().contains("dns")`).
pub open spec fn mentions_dns(s: Seq<char>) -> bool {
    exists|i: int| #[trigger] dns_at(s, i)
}

/// Whether "dns", in any ASCII case, starts at index `i` of `s`.
pub open spec fn dns_at(s: Seq<char>, i: int) -> bool {
    0 <= i && i + 3 <= s.len()
        && (s[i] == 'd' || s[i] == 'D')
        && (s[i + 1] == 'n' || s[i + 1] == 'N')
        && (s[i + 2] == 's' || s[i + 2] == 'S')
}

/// `status` and `phrase` as `"{status} {phrase}"`.
pub open spec fn status_line(status: int, phrase: Seq<char>) -> Seq<char> {
    dec_signed(status) + seq![' '] + phrase
}

/// The message shown when a call fails with a SIP status and reason phrase.
pub open spec fn call_failure_text(status: int, phrase: Seq<char>) -> Seq<char> {
    if mentions_dns(phrase) {
        "Could not route the call — the SIP server address could not be resolved. Check the server hostname, or set an outbound proxy, in Settings."@
    } else if status == 401 || status == 407 {
        "Authentication failed — check the account password in Settings."@
    } else if status == 403 {
        "Rejected by the server (forbidden)."@
    } else if status == 404 {
        "Number not found."@
    } else if status == 408 {
        "No response from the SIP server (timed out)."@
    } else if status == 480 {
        "The number is currently unavailable."@
    } else if status == 486 || status == 600 {
        "The line is busy."@
    } else if status == 603 {
        "Call declined."@
    } else if status >= 500 {
        "Server error ("@ + status_line(status, phrase) + ")."@
    } else if status > 0 {
        status_line(status, phrase)
    } else {
        phrase
    }
}

fn mentions_dns_exec(v: &Vec<char>) -> (b: bool)
    ensures
        b == mentions_dns(v@),
{
    let mut i: usize = 0;
    while i < v.len() && v.len() - i >= 3
        invariant
            i <= v@.len(),
            forall|k: int| 0 <= k < i ==> !#[trigger] dns_at(v@, k),
        decreases v@.len() - i,
    {
        if (v[i] == 'd' || v[i] == 'D') && (v[i + 1] == 'n' || v[i + 1] == 'N') && (v[i + 2] == 's' || v[i + 2] == 'S') {
            assert(dns_at(v@, i as int));
            return true;
        }
        i = i + 1;
    }
    assert forall|k: int| !#[trigger] dns_at(v@, k) by {
        if 0 <= k < i {
        }
    }
    false
}

/// Turns a SIP failure status and reason phrase into a clear message.
/// Name-resolution and routing failures that the stack reports as "DNS
/// Error" get a message that points at the server address.
pub fn friendly_call_failure(status: i32, phrase: &str) -> (s: String)
    ensures
        s@ == call_failure_text(status as int, phrase@),
{
    let v = chars_of(phrase);
    if mentions_dns_exec(&v) {
        return String::from_str("Could not route the call — the SIP server address could not be resolved. Check the server hostname, or set an outbound proxy, in Settings.");
    }
    if status == 401 || status == 407 {
        String::from_str("Authentication failed — check the account password in Settings.")
    } else if status == 403 {
        String::from_str("Rejected by the server (forbidden).")
    } else if status == 404 {
        String::from_str("Number not found.")
    } else if status == 408 {
        String::from_str("No response from the SIP server (timed out).")
    } else if status == 480 {
        String::from_str("The number is currently unavailable.")
    } else if status == 486 || status == 600 {
        String::from_str("The line is busy.")
    } else if status == 603 {
        String::from_str("Call declined.")
    } else if status >= 500 {
        let mut s = String::from_str("Server error (");
        push_dec_i64(&mut s, status as i64);
        push_char(&mut s, ' ');
        append_str(&mut s, phrase);
        append_str(&mut s, ").");
        assert(s@ =~= "Server error ("@ + status_line(status as int, phrase@) + ")."@);
        s
    } else if status > 0 {
        status_text(status, phrase)
    } else {
        String::from_str(phrase)
    }
}

/// `"{status} {phrase}"`.
fn status_text(status: i32, phrase: &str) -> (s: String)
    ensures
        s@ == status_line(status as int, phrase@),
{
    let mut s = String::new();
    push_dec_i64(&mut s, status as i64);
    push_char(&mut s, ' ');
    append_str(&mut s, phrase);
    assert(s@ =~= status_line(status as int, phrase@));
    s
}

// ── Events of the C callback ─────────────────────────────────────────────────

/// A port number as the media description gives it, 0 when it does not parse.
pub open spec fn port_or_zero(f: Seq<char>) -> u16 {
    match parse_unsigned(f, 65535) {
        Some(p) => p as u16,
        None => 0,
    }
}

/// A payload type as the media description gives it, 0 when it does not parse.
pub open spec fn codec_or_zero(f: Seq<char>) -> u8 {
    match parse_unsigned(f, 255) {
        Some(p) => p as u8,
        None => 0,
    }
}

/// The negotiated media that `"local_port,remote_ip,remote_port[,codec]"`
/// describes: at least three comma-separated pieces are needed; a port or
/// codec that does not parse becomes 0, a missing codec is 0.
pub open spec fn media_spec(aux: Seq<char>) -> Option<(u16, Seq<char>, u16, u8)> {
    let parts = fields_from(aux, ',', 0, 4);
    if parts.len() >= 3 {
        Some((
            port_or_zero(parts[0]),
            parts[1],
            port_or_zero(parts[2]),
            if parts.len() >= 4 { codec_or_zero(parts[3]) } else { 0 },
        ))
    } else {
        None
    }
}

/// The media parameters of a media event's auxiliary text.
pub fn parse_media_aux(aux: &str) -> (r: Option<(u16, String, u16, u8)>)
    ensures
        match r {
            Some((l, ip, rp, c)) => media_spec(aux@) == Some((l, ip@, rp, c)),
            None => media_spec(aux@) is None,
        },
{
    reveal_with_fuel(fields_from, 5);
    let v = chars_of(aux);
    let ghost s = v@;
    let c1 = match find_after(&v, ',', 0) {
        Some(i) => i,
        None => { return None; },
    };
    let c2 = match find_after(&v, ',', c1 + 1) {
        Some(i) => i,
        None => { return None; },
    };
    let local = match parse_unsigned_vec(&v, 0, c1, 65535) {
        Some(p) => p as u16,
        None => 0,
    };
    let ip = string_of(&v, c1 + 1, c2);
    match find_after(&v, ',', c2 + 1) {
        Some(c3) => {
            assert(fields_from(s, ',', 0, 4) =~= seq![
                s.subrange(0, c1 as int),
                s.subrange(c1 + 1, c2 as int),
                s.subrange(c2 + 1, c3 as int),
                s.subrange(c3 + 1, s.len() as int),
            ]);
            let remote = match parse_unsigned_vec(&v, c2 + 1, c3, 65535) {
                Some(p) => p as u16,
                None => 0,
            };
            let codec = match parse_unsigned_vec(&v, c3 + 1, v.len(), 255) {
                Some(p) => p as u8,
                None => 0,
            };
            Some((local, ip, remote, codec))
        },
        None => {
            assert(fields_from(s, ',', 0, 4) =~= seq![
                s.subrange(0, c1 as int),
                s.subrange(c1 + 1, c2 as int),
                s.subrange(c2 + 1, s.len() as int),
            ]);
            let remote = match parse_unsigned_vec(&v, c2 + 1, v.len(), 65535) {
                Some(p) => p as u16,
                None => 0,
            };
            Some((local, ip, remote, 0))
        },
    }
}

/// The event the C layer's callback reports; `phrase` and `aux` are `None`
/// where the C layer passed a null pointer.
pub open spec fn event_from_c_spec(
    event: i32,
    status: i32,
    phrase: Option<Seq<char>>,
    aux: Option<Seq<char>>,
) -> Option<SipEventView> {
    let p = match phrase { Some(p) => p, None => Seq::empty() };
    let a = match aux { Some(a) => a, None => Seq::empty() };
    if event == SOFIA_EV_REGISTER_OK {
        Some(SipEventView::Registered)
    } else if event == SOFIA_EV_REGISTER_FAIL {
        Some(SipEventView::RegistrationFailed(status_line(status as int, p)))
    } else if event == SOFIA_EV_INCOMING_CALL {
        Some(SipEventView::IncomingCall { from: match aux { Some(a) => a, None => "Unknown"@ } })
    } else if event == SOFIA_EV_CALL_CONNECTED {
        Some(SipEventView::CallConnected)
    } else if event == SOFIA_EV_CALL_MEDIA {
        match media_spec(a) {
            Some((l, ip, rp, c)) => Some(SipEventView::CallMedia {
                local_rtp_port: l, remote_ip: ip, remote_rtp_port: rp, codec: c }),
            None => None,
        }
    } else if event == SOFIA_EV_CALL_ENDED {
        Some(SipEventView::CallEnded)
    } else if event == SOFIA_EV_CALL_FAILED {
        Some(SipEventView::CallFailed(call_failure_text(status as int, p)))
    } else if event == SOFIA_EV_TRANSFER_OK {
        Some(SipEventView::TransferOk)
    } else if event == SOFIA_EV_TRANSFER_FAILED {
        Some(SipEventView::TransferFailed(p))
    } else if event == SOFIA_EV_CONSULT_CONNECTED {
        Some(SipEventView::ConsultConnected)
    } else if event == SOFIA_EV_CONSULT_MEDIA {
        match media_spec(a) {
            Some((l, ip, rp, c)) => Some(SipEventView::ConsultMedia {
                local_rtp_port: l, remote_ip: ip, remote_rtp_port: rp, codec: c }),
            None => None,
        }
    } else if event == SOFIA_EV_CONSULT_ENDED {
        Some(SipEventView::ConsultEnded)
    } else {
        None
    }
}

/// An optional text as a value.
pub open spec fn opt_text(o: Option<&str>) -> Option<Seq<char>> {
    match o {
        Some(t) => Some(t@),
        None => None,
    }
}

/// Turns one callback of the C layer into the event the application sees,
/// or `None` for codes it does not know and media reports it cannot read.
pub fn event_from_c(event: i32, status: i32, phrase: Option<&str>, aux: Option<&str>) -> (r: Option<SipEvent>)
    ensures
        match r {
            Some(e) => event_from_c_spec(event, status, opt_text(phrase), opt_text(aux)) == Some(e@),
            None => event_from_c_spec(event, status, opt_text(phrase), opt_text(aux)) is None,
        },
{
    let p: &str = match phrase { Some(p) => p, None => "" };
    let a: &str = match aux { Some(a) => a, None => "" };
    proof {
        reveal_strlit("");
    }
    assert(p@ == (match opt_text(phrase) { Some(p) => p, None => Seq::<char>::empty() }));
    assert(a@ == (match opt_text(aux) { Some(a) => a, None => Seq::<char>::empty() }));
    if event == SOFIA_EV_REGISTER_OK {
        Some(SipEvent::Registered)
    } else if event == SOFIA_EV_REGISTER_FAIL {
        Some(SipEvent::RegistrationFailed(status_text(status, p)))
    } else if event == SOFIA_EV_INCOMING_CALL {
        let from = match aux {
            Some(a) => String::from_str(a),
            None => String::from_str("Unknown"),
        };
        Some(SipEvent::IncomingCall { from })
    } else if event == SOFIA_EV_CALL_CONNECTED {
        Some(SipEvent::CallConnected)
    } else if event == SOFIA_EV_CALL_MEDIA {
        match parse_media_aux(a) {
            Some((local_rtp_port, remote_ip, remote_rtp_port, codec)) =>
                Some(SipEvent::CallMedia { local_rtp_port, remote_ip, remote_rtp_port, codec }),
            None => None,
        }
    } else if event == SOFIA_EV_CALL_ENDED {
        Some(SipEvent::CallEnded)
    } else if event == SOFIA_EV_CALL_FAILED {
        Some(SipEvent::CallFailed(friendly_call_failure(status, p)))
    } else if event == SOFIA_EV_TRANSFER_OK {
        Some(SipEvent::TransferOk)
    } else if event == SOFIA_EV_TRANSFER_FAILED {
        Some(SipEvent::TransferFailed(String::from_str(p)))
    } else if event == SOFIA_EV_CONSULT_CONNECTED {
        Some(SipEvent::ConsultConnected)
    } else if event == SOFIA_EV_CONSULT_MEDIA {
        match parse_media_aux(a) {
            Some((local_rtp_port, remote_ip, remote_rtp_port, codec)) =>
                Some(SipEvent::ConsultMedia { local_rtp_port, remote_ip, remote_rtp_port, codec }),
            None => None,
        }
    } else if event == SOFIA_EV_CONSULT_ENDED {
        Some(SipEvent::ConsultEnded)
    } else {
        None
    }
}

// ── Engine ────────────────────────────────────────────────────────────────────

/// A text as the C layer receives it: empty when it holds a NUL character,
/// which a C string cannot carry (`CString::new(s).unwrap_or_default()`).
pub open spec fn c_text(s: Seq<char>) -> Seq<char> {
    if has_char(s, '\0') { Seq::empty() } else { s }
}

/// `CString::new(s).unwrap_or_default()` as text.
pub fn c_text_of(s: &str) -> (r: String)
    ensures
        r@ == c_text(s@),
{
    let v = chars_of(s);
    let mut i: usize = 0;
    while i < v.len()
        invariant
            i <= v@.len(),
            v@ == s@,
            forall|k: int| 0 <= k < i ==> v@[k] != '\0',
        decreases v@.len() - i,
    {
        if v[i] == '\0' {
            assert(v@[i as int] == '\0');
            assert(has_char(s@, '\0'));
            return String::new();
        }
        i = i + 1;
    }
    string_of(&v, 0, v.len())
}

/// What the stack is started with.
pub struct SipStart {
    pub server: String,
    pub port: u16,
    pub proxy: String,
    pub transport: i32,
    pub tls_verify: bool,
    pub tls_ca_file: String,
}

/// A request for the SIP stack of one engine.
pub enum SipCommand {
    Register { server: String, port: u16, username: String, password: String, display_name: String },
    Unregister,
    Reregister,
    Call(String),
    Answer,
    Hangup,
    SetHold(bool),
    SendDtmf(u8),
    BlindTransfer(String),
    StartConsultation(String),
    CompleteTransfer,
    CancelConsultation,
}

/// A request as a mathematical value.
pub enum SipCommandView {
    Register { server: Seq<char>, port: u16, username: Seq<char>, password: Seq<char>, display_name: Seq<char> },
    Unregister,
    Reregister,
    Call(Seq<char>),
    Answer,
    Hangup,
    SetHold(bool),
    SendDtmf(u8),
    BlindTransfer(Seq<char>),
    StartConsultation(Seq<char>),
    CompleteTransfer,
    CancelConsultation,
}

impl View for SipCommand {
    type V = SipCommandView;

    open spec fn view(&self) -> SipCommandView {
        match self {
            SipCommand::Register { server, port, username, password, display_name } => SipCommandView::Register {
                server: server@,
                port: *port,
                username: username@,
                password: password@,
                display_name: display_name@,
            },
            SipCommand::Unregister => SipCommandView::Unregister,
            SipCommand::Reregister => SipCommandView::Reregister,
            SipCommand::Call(n) => SipCommandView::Call(n@),
            SipCommand::Answer => SipCommandView::Answer,
            SipCommand::Hangup => SipCommandView::Hangup,
            SipCommand::SetHold(h) => SipCommandView::SetHold(*h),
            SipCommand::SendDtmf(d) => SipCommandView::SendDtmf(*d),
            SipCommand::BlindTransfer(n) => SipCommandView::BlindTransfer(n@),
            SipCommand::StartConsultation(n) => SipCommandView::StartConsultation(n@),
            SipCommand::CompleteTransfer => SipCommandView::CompleteTransfer,
            SipCommand::CancelConsultation => SipCommandView::CancelConsultation,
        }
    }
}

/// An optional request as a value.
pub open spec fn request_view(r: Option<SipCommand>) -> Option<SipCommandView> {
    match r {
        Some(c) => Some(c@),
        None => None,
    }
}

/// The request a running engine hands over; a dead engine hands over none.
pub open spec fn if_running(running: bool, c: SipCommandView) -> Option<SipCommandView> {
    if running { Some(c) } else { None }
}

/// The decision side of a SIP engine: whether its stack started, and the
/// request each operation hands to the stack. An engine whose stack failed
/// to start hands over nothing.
pub struct SipEngine {
    running: bool,
}

/// The event fired when the stack fails to start.
pub open spec fn start_failure() -> SipEventView {
    SipEventView::RegistrationFailed("SIP stack failed to start"@)
}

/// A DTMF digit the stack accepts: `0`–`9`, `*` or `#`, taken from the low
/// byte of the character (`digit as u8`).
pub open spec fn dtmf_byte(digit: char) -> Option<u8> {
    let c = ((digit as u32) % 256) as u8;
    if (48 <= c && c <= 57) || c == 42 || c == 35 { Some(c) } else { None }
}

impl SipEngine {
    pub closed spec fn is_running(&self) -> bool {
        self.running
    }

    /// What the stack is started with: the texts as C strings, the transport
    /// as its C number.
    pub fn start_params(
        server: &str,
        port: u16,
        proxy: &str,
        transport: Transport,
        tls_verify: bool,
        tls_ca_file: &str,
    ) -> (p: SipStart)
        ensures
            p.server@ == c_text(server@),
            p.port == port,
            p.proxy@ == c_text(proxy@),
            p.transport == match transport { Transport::Udp => 0i32, Transport::Tcp => 1i32, Transport::Tls => 2i32 },
            p.tls_verify == tls_verify,
            p.tls_ca_file@ == c_text(tls_ca_file@),
    {
        SipStart {
            server: c_text_of(server),
            port,
            proxy: c_text_of(proxy),
            transport: transport.as_c_int(),
            tls_verify,
            tls_ca_file: c_text_of(tls_ca_file),
        }
    }

    /// The engine once the stack was asked to start: running when the stack
    /// came up; otherwise dead, with the failure event to report at once.
    pub fn new(stack_started: bool) -> (r: (SipEngine, Option<SipEvent>))
        ensures
            r.0.is_running() == stack_started,
            stack_started ==> r.1 is None,
            !stack_started ==> (r.1 matches Some(e) && e@ == start_failure()),
    {
        if stack_started {
            (SipEngine { running: true }, None)
        } else {
            (SipEngine { running: false }, Some(SipEvent::RegistrationFailed(String::from_str("SIP stack failed to start"))))
        }
    }

    pub fn register(&self, config: SipConfig) -> (r: Option<SipCommand>)
        ensures
            request_view(r) == if_running(self.is_running(), SipCommandView::Register {
                server: c_text(config.server@),
                port: config.port,
                username: c_text(config.username@),
                password: c_text(config.password@),
                display_name: c_text(config.display_name@),
            }),
    {
        if !self.running {
            return None;
        }
        Some(SipCommand::Register {
            server: c_text_of(config.server.as_str()),
            port: config.port,
            username: c_text_of(config.username.as_str()),
            password: c_text_of(config.password.as_str()),
            display_name: c_text_of(config.display_name.as_str()),
        })
    }

    pub fn unregister(&self) -> (r: Option<SipCommand>)
        ensures
            request_view(r) == if_running(self.is_running(), SipCommandView::Unregister),
    {
        if self.running { Some(SipCommand::Unregister) } else { None }
    }

    pub fn reregister(&self) -> (r: Option<SipCommand>)
        ensures
            request_view(r) == if_running(self.is_running(), SipCommandView::Reregister),
    {
        if self.running { Some(SipCommand::Reregister) } else { None }
    }

    pub fn make_call(&self, number: &str) -> (r: Option<SipCommand>)
        ensures
            request_view(r) == if_running(self.is_running(), SipCommandView::Call(c_text(number@))),
    {
        if self.running { Some(SipCommand::Call(c_text_of(number))) } else { None }
    }

    pub fn answer_call(&self) -> (r: Option<SipCommand>)
        ensures
            request_view(r) == if_running(self.is_running(), SipCommandView::Answer),
    {
        if self.running { Some(SipCommand::Answer) } else { None }
    }

    pub fn hangup(&self) -> (r: Option<SipCommand>)
        ensures
            request_view(r) == if_running(self.is_running(), SipCommandView::Hangup),
    {
        if self.running { Some(SipCommand::Hangup) } else { None }
    }

    /// The SIP stack is not asked for anything: muting silences the
    /// microphone of the call's audio sessions (see `WindowState::mute_toggled`).
    pub fn set_muted(&self, muted: bool) -> (r: Option<SipCommand>)
        ensures
            r is None,
    {
        None
    }

    pub fn set_hold(&self, hold: bool) -> (r: Option<SipCommand>)
        ensures
            request_view(r) == if_running(self.is_running(), SipCommandView::SetHold(hold)),
    {
        if self.running { Some(SipCommand::SetHold(hold)) } else { None }
    }

    /// Sends a DTMF digit; characters other than `0`–`9`, `*` and `#` are
    /// ignored.
    pub fn send_dtmf(&self, digit: char) -> (r: Option<SipCommand>)
        ensures
            request_view(r) == match dtmf_byte(digit) {
                Some(b) => if_running(self.is_running(), SipCommandView::SendDtmf(b)),
                None => None,
            },
    {
        if !self.running {
            return None;
        }
        let c: u8 = ((digit as u32) % 256) as u8;
        if (48 <= c && c <= 57) || c == 42 || c == 35 {
            Some(SipCommand::SendDtmf(c))
        } else {
            None
        }
    }

    pub fn blind_transfer(&self, number: &str) -> (r: Option<SipCommand>)
        requires
            self.is_running() ==> !has_char(number@, '\0'),
        ensures
            request_view(r) == if_running(self.is_running(), SipCommandView::BlindTransfer(number@)),
    {
        if self.running { Some(SipCommand::BlindTransfer(String::from_str(number))) } else { None }
    }

    pub fn start_consultation(&self, number: &str) -> (r: Option<SipCommand>)
        requires
            self.is_running() ==> !has_char(number@, '\0'),
        ensures
            request_view(r) == if_running(self.is_running(), SipCommandView::StartConsultation(number@)),
    {
        if self.running { Some(SipCommand::StartConsultation(String::from_str(number))) } else { None }
    }

    pub fn complete_transfer(&self) -> (r: Option<SipCommand>)
        ensures
            request_view(r) == if_running(self.is_running(), SipCommandView::CompleteTransfer),
    {
        if self.running { Some(SipCommand::CompleteTransfer) } else { None }
    }

    pub fn cancel_consultation(&self) -> (r: Option<SipCommand>)
        ensures
            request_view(r) == if_running(self.is_running(), SipCommandView::CancelConsultation),
    {
        if self.running { Some(SipCommand::CancelConsultation) } else { None }
    }
}

/// Whether `s` holds a NUL character, which `blind_transfer` and
/// `start_consultation` cannot pass on.
pub fn has_nul(s: &str) -> (b: bool)
    ensures
        b == has_char(s@, '\0'),
{
    let v = chars_of(s);
    let mut i: usize = 0;
    while i < v.len()
        invariant
            i <= v@.len(),
            v@ == s@,
            forall|k: int| 0 <= k < i ==> v@[k] != '\0',
        decreases v@.len() - i,
    {
        if v[i] == '\0' {
            assert(v@[i as int] == '\0');
            assert(has_char(s@, '\0'));
            return true;
        }
        i = i + 1;
    }
    false
}

} // verus!
