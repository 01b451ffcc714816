//! The decision logic of the main window: which accounts have a running
//! engine and whether they are registered, which account handles the
//! current call, the call being tracked for the history, and what each SIP
//! event and user request does to that state. Each operation returns the
//! actions the user interface, the audio layer and the SIP engines carry
//! out; the application performs them and reports the outcomes back.

use vstd::prelude::*;
use vstd::string::*;
use crate::accounts::{label_spec, Account, AccountView};
use crate::call_log::{
    display_name, display_name_spec, lemma_push_newest_first, pushed, records_view, CallLog, Direction,
    Record, RecordView, Status, MAX_RECORDS,
};
use crate::ringer::RingTone;
use crate::sip::{SipEvent, SipEventView};
use crate::text::append_str;

verus! {

// ── State ────────────────────────────────────────────────────────────────────

/// The call being tracked for the history.
pub struct PendingCall {
    pub direction: Direction,
    pub number: String,
    pub started_at: i64,
    pub connected_at: Option<i64>,
}

/// An account that has a running SIP engine (registered or registering).
pub struct ActiveEngine {
    pub account_id: String,
    pub registered: bool,
    pub last_register_ok: Option<i64>,
}

/// Everything the window decides on.
pub struct WindowState {
    /// All accounts that have a running SIP engine.
    pub engines: Vec<ActiveEngine>,
    /// The account handling the current call.
    pub active_account_id: Option<String>,
    /// The party of the current call, shown while a consultation holds it.
    pub primary_caller: String,
    pub pending_call: Option<PendingCall>,
    pub call_log: CallLog,
    /// Whether an audio session runs for the current call.
    pub audio_active: bool,
    /// Whether an audio session runs for a consultation call.
    pub consult_active: bool,
    /// Whether the periodic re-registration timer runs.
    pub keepalive_started: bool,
}

pub struct PendingView {
    pub direction: Direction,
    pub number: Seq<char>,
    pub started_at: i64,
    pub connected_at: Option<i64>,
}

pub struct EngineView {
    pub account_id: Seq<char>,
    pub registered: bool,
    pub last_register_ok: Option<i64>,
}

pub struct WindowView {
    pub engines: Seq<EngineView>,
    pub active_account_id: Option<Seq<char>>,
    pub primary_caller: Seq<char>,
    pub pending_call: Option<PendingView>,
    pub call_log: Seq<RecordView>,
    pub audio_active: bool,
    pub consult_active: bool,
    pub keepalive_started: bool,
}

impl View for PendingCall {
    type V = PendingView;

    open spec fn view(&self) -> PendingView {
        PendingView {
            direction: self.direction,
            number: self.number@,
            started_at: self.started_at,
            connected_at: self.connected_at,
        }
    }
}

impl View for ActiveEngine {
    type V = EngineView;

    open spec fn view(&self) -> EngineView {
        EngineView {
            account_id: self.account_id@,
            registered: self.registered,
            last_register_ok: self.last_register_ok,
        }
    }
}

pub open spec fn engines_view(e: Seq<ActiveEngine>) -> Seq<EngineView> {
    e.map_values(|x: ActiveEngine| x@)
}

pub open spec fn opt_id_view(o: Option<String>) -> Option<Seq<char>> {
    match o {
        Some(s) => Some(s@),
        None => None,
    }
}

pub open spec fn pending_view(o: Option<PendingCall>) -> Option<PendingView> {
    match o {
        Some(p) => Some(p@),
        None => None,
    }
}

impl View for WindowState {
    type V = WindowView;

    open spec fn view(&self) -> WindowView {
        WindowView {
            engines: engines_view(self.engines@),
            active_account_id: opt_id_view(self.active_account_id),
            primary_caller: self.primary_caller@,
            pending_call: pending_view(self.pending_call),
            call_log: records_view(self.call_log.records@),
            audio_active: self.audio_active,
            consult_active: self.consult_active,
            keepalive_started: self.keepalive_started,
        }
    }
}

// ── Actions ──────────────────────────────────────────────────────────────────

/// Negotiated RTP media for an audio session.
pub struct Media {
    pub local_rtp_port: u16,
    pub remote_ip: String,
    pub remote_rtp_port: u16,
    pub codec: u8,
}

/// What the application carries out after a decision.
pub enum UiAction {
    /// Show the status banner with this title and button (no button for `None`).
    ShowBanner { title: String, button: Option<String> },
    HideBanner,
    /// A toast; `timeout` in seconds (the default for `None`), with a button
    /// that copies the text when `copy_button` is set.
    Toast { text: String, timeout: Option<u32>, copy_button: bool },
    SetCaller(String),
    SetDuration(String),
    ShowAnswerButton(bool),
    StartTimer,
    StopTimer,
    ShowCallScreen(bool),
    StartRinger(RingTone),
    StopRinger,
    StartAudio(Media),
    StopAudio,
    StartConsultAudio(Media),
    StopConsultAudio,
    /// Take the call's audio session off hold.
    ResumeAudio,
    /// Mute or unmute the microphone of the running audio sessions.
    MuteAudio(bool),
    ClearDialpad,
    EnterConsultMode(String),
    ExitConsultMode,
    /// Show the registered accounts in the dial pad's selector again.
    RefreshDialpadAccounts,
    /// Show the newest record of the call log at the top of the history list.
    PrependCallRow,
    /// Write the call log to disk.
    SaveCallLog,
    /// Create and register a SIP engine for the account.
    StartEngine(Account),
    /// Drop the SIP engine of the account.
    DropEngine(String),
    /// Drop every SIP engine.
    DropAllEngines,
    /// Place a call through the engine of the account.
    Dial { account_id: String, number: String },
    /// Refresh the registration of the account's engine.
    Reregister(String),
    /// Start the periodic re-registration timer.
    StartKeepalive,
}

pub struct MediaView {
    pub local_rtp_port: u16,
    pub remote_ip: Seq<char>,
    pub remote_rtp_port: u16,
    pub codec: u8,
}

pub enum ActionView {
    ShowBanner { title: Seq<char>, button: Option<Seq<char>> },
    HideBanner,
    Toast { text: Seq<char>, timeout: Option<u32>, copy_button: bool },
    SetCaller(Seq<char>),
    SetDuration(Seq<char>),
    ShowAnswerButton(bool),
    StartTimer,
    StopTimer,
    ShowCallScreen(bool),
    StartRinger(RingTone),
    StopRinger,
    StartAudio(MediaView),
    StopAudio,
    StartConsultAudio(MediaView),
    StopConsultAudio,
    ResumeAudio,
    MuteAudio(bool),
    ClearDialpad,
    EnterConsultMode(Seq<char>),
    ExitConsultMode,
    RefreshDialpadAccounts,
    PrependCallRow,
    SaveCallLog,
    StartEngine(AccountView),
    DropEngine(Seq<char>),
    DropAllEngines,
    Dial { account_id: Seq<char>, number: Seq<char> },
    Reregister(Seq<char>),
    StartKeepalive,
}

impl View for Media {
    type V = MediaView;

    open spec fn view(&self) -> MediaView {
        MediaView {
            local_rtp_port: self.local_rtp_port,
            remote_ip: self.remote_ip@,
            remote_rtp_port: self.remote_rtp_port,
            codec: self.codec,
        }
    }
}

impl View for UiAction {
    type V = ActionView;

    open spec fn view(&self) -> ActionView {
        match self {
            UiAction::ShowBanner { title, button } => ActionView::ShowBanner {
                title: title@,
                button: opt_id_view(*button),
            },
            UiAction::HideBanner => ActionView::HideBanner,
            UiAction::Toast { text, timeout, copy_button } => ActionView::Toast {
                text: text@,
                timeout: *timeout,
                copy_button: *copy_button,
            },
            UiAction::SetCaller(s) => ActionView::SetCaller(s@),
            UiAction::SetDuration(s) => ActionView::SetDuration(s@),
            UiAction::ShowAnswerButton(b) => ActionView::ShowAnswerButton(*b),
            UiAction::StartTimer => ActionView::StartTimer,
            UiAction::StopTimer => ActionView::StopTimer,
            UiAction::ShowCallScreen(b) => ActionView::ShowCallScreen(*b),
            UiAction::StartRinger(t) => ActionView::StartRinger(*t),
            UiAction::StopRinger => ActionView::StopRinger,
            UiAction::StartAudio(m) => ActionView::StartAudio(m@),
            UiAction::StopAudio => ActionView::StopAudio,
            UiAction::StartConsultAudio(m) => ActionView::StartConsultAudio(m@),
            UiAction::StopConsultAudio => ActionView::StopConsultAudio,
            UiAction::ResumeAudio => ActionView::ResumeAudio,
            UiAction::MuteAudio(b) => ActionView::MuteAudio(*b),
            UiAction::ClearDialpad => ActionView::ClearDialpad,
            UiAction::EnterConsultMode(s) => ActionView::EnterConsultMode(s@),
            UiAction::ExitConsultMode => ActionView::ExitConsultMode,
            UiAction::RefreshDialpadAccounts => ActionView::RefreshDialpadAccounts,
            UiAction::PrependCallRow => ActionView::PrependCallRow,
            UiAction::SaveCallLog => ActionView::SaveCallLog,
            UiAction::StartEngine(a) => ActionView::StartEngine(a@),
            UiAction::DropEngine(s) => ActionView::DropEngine(s@),
            UiAction::DropAllEngines => ActionView::DropAllEngines,
            UiAction::Dial { account_id, number } => ActionView::Dial {
                account_id: account_id@,
                number: number@,
            },
            UiAction::Reregister(s) => ActionView::Reregister(s@),
            UiAction::StartKeepalive => ActionView::StartKeepalive,
        }
    }
}

pub open spec fn actions_view(a: Seq<UiAction>) -> Seq<ActionView> {
    a.map_values(|x: UiAction| x@)
}

/// An error toast: shown for ten seconds, with a button that copies the text.
pub open spec fn error_toast(text: Seq<char>) -> ActionView {
    ActionView::Toast { text, timeout: Some(10), copy_button: true }
}

// ── Lookups ──────────────────────────────────────────────────────────────────

/// The index of the first engine of the account `id` at or after `i`.
pub open spec fn engine_index_from(engines: Seq<EngineView>, id: Seq<char>, i: int) -> Option<int>
    decreases engines.len() - i,
{
    if i < 0 || i >= engines.len() {
        None
    } else if engines[i].account_id == id {
        Some(i)
    } else {
        engine_index_from(engines, id, i + 1)
    }
}

/// The index of the first engine of the account `id`.
pub open spec fn engine_index(engines: Seq<EngineView>, id: Seq<char>) -> Option<int> {
    engine_index_from(engines, id, 0)
}

/// The index of the first account with identifier `id` at or after `i`.
pub open spec fn account_index_from(accounts: Seq<AccountView>, id: Seq<char>, i: int) -> Option<int>
    decreases accounts.len() - i,
{
    if i < 0 || i >= accounts.len() {
        None
    } else if accounts[i].id == id {
        Some(i)
    } else {
        account_index_from(accounts, id, i + 1)
    }
}

/// The index of the first account with identifier `id`.
pub open spec fn account_index(accounts: Seq<AccountView>, id: Seq<char>) -> Option<int> {
    account_index_from(accounts, id, 0)
}

pub open spec fn accounts_view(a: Seq<Account>) -> Seq<AccountView> {
    a.map_values(|x: Account| x@)
}

pub proof fn lemma_engine_index_from(engines: Seq<EngineView>, id: Seq<char>, i: int)
    requires
        0 <= i,
    ensures
        match engine_index_from(engines, id, i) {
            Some(k) => i <= k < engines.len() && engines[k].account_id == id
                && forall|m: int| i <= m < k ==> engines[m].account_id != id,
            None => forall|m: int| i <= m < engines.len() ==> engines[m].account_id != id,
        },
    decreases engines.len() - i,
{
    if i < engines.len() && engines[i].account_id != id {
        lemma_engine_index_from(engines, id, i + 1);
    }
}

pub proof fn lemma_account_index_from(accounts: Seq<AccountView>, id: Seq<char>, i: int)
    requires
        0 <= i,
    ensures
        match account_index_from(accounts, id, i) {
            Some(k) => i <= k < accounts.len() && accounts[k].id == id,
            None => forall|m: int| i <= m < accounts.len() ==> accounts[m].id != id,
        },
    decreases accounts.len() - i,
{
    if i < accounts.len() && accounts[i].id != id {
        lemma_account_index_from(accounts, id, i + 1);
    }
}

/// The position of the account `id` in `accounts`.
pub fn find_account(accounts: &Vec<Account>, id: &String) -> (r: Option<usize>)
    ensures
        match r {
            Some(k) => account_index(accounts_view(accounts@), id@) == Some(k as int) && k < accounts@.len(),
            None => account_index(accounts_view(accounts@), id@) is None,
        },
{
    let ghost av = accounts_view(accounts@);
    let mut i: usize = 0;
    while i < accounts.len()
        invariant
            i <= accounts@.len(),
            av == accounts_view(accounts@),
            account_index(av, id@) == account_index_from(av, id@, i as int),
        decreases accounts@.len() - i,
    {
        if accounts[i].id == *id {
            return Some(i);
        }
        i = i + 1;
    }
    None
}

impl WindowState {
    /// A window with no engines, no call and the given history.
    pub fn new(call_log: CallLog) -> (w: WindowState)
        ensures
            w@.engines.len() == 0,
            w@.active_account_id is None,
            w@.primary_caller.len() == 0,
            w@.pending_call is None,
            w@.call_log == records_view(call_log.records@),
            !w@.audio_active,
            !w@.consult_active,
            !w@.keepalive_started,
    {
        WindowState {
            engines: Vec::new(),
            active_account_id: None,
            primary_caller: String::new(),
            pending_call: None,
            call_log,
            audio_active: false,
            consult_active: false,
            keepalive_started: false,
        }
    }

    /// The position of the engine of the account `id`.
    pub fn find_engine(&self, id: &String) -> (r: Option<usize>)
        ensures
            match r {
                Some(k) => engine_index(self@.engines, id@) == Some(k as int) && k < self.engines@.len(),
                None => engine_index(self@.engines, id@) is None,
            },
    {
        let mut i: usize = 0;
        while i < self.engines.len()
            invariant
                i <= self.engines@.len(),
                engine_index(self@.engines, id@) == engine_index_from(self@.engines, id@, i as int),
            decreases self.engines@.len() - i,
        {
            if self.engines[i].account_id == *id {
                return Some(i);
            }
            i = i + 1;
        }
        None
    }
}

// ── Registration events ──────────────────────────────────────────────────────

/// Whether every engine is registered.
pub open spec fn all_registered(engines: Seq<EngineView>) -> bool {
    forall|i: int| 0 <= i < engines.len() ==> #[trigger] engines[i].registered
}

/// The engines once the account `id` is marked as registered or not.
pub open spec fn set_registered(engines: Seq<EngineView>, id: Seq<char>, registered: bool, ok_at: Option<i64>) -> Seq<EngineView> {
    match engine_index(engines, id) {
        Some(k) => engines.update(k, EngineView {
            account_id: engines[k].account_id,
            registered,
            last_register_ok: match ok_at { Some(t) => Some(t), None => engines[k].last_register_ok },
        }),
        None => engines,
    }
}

/// Whether a registration of the account `id` is its first since its engine started.
pub open spec fn first_registration(engines: Seq<EngineView>, id: Seq<char>) -> bool {
    match engine_index(engines, id) {
        Some(k) => !engines[k].registered,
        None => false,
    }
}

/// "Registered as user@server".
pub open spec fn registered_text(a: AccountView) -> Seq<char> {
    "Registered as "@ + a.username + seq!['@'] + a.server
}

/// What a successful registration shows: the banner goes once every engine
/// is registered; the first registration of an engine is announced and
/// updates the dial pad.
pub open spec fn registered_actions(engines: Seq<EngineView>, id: Seq<char>, now: i64, accounts: Seq<AccountView>) -> Seq<ActionView> {
    (if all_registered(set_registered(engines, id, true, Some(now))) { seq![ActionView::HideBanner] } else { Seq::empty() })
    + (if first_registration(engines, id) {
        (match account_index(accounts, id) {
            Some(a) => seq![ActionView::Toast { text: registered_text(accounts[a]), timeout: Some(4), copy_button: false }],
            None => Seq::empty(),
        }) + seq![ActionView::RefreshDialpadAccounts]
    } else {
        Seq::empty()
    })
}

/// The name the banner uses for an account: its label, or its identifier
/// when the account is not configured.
pub open spec fn account_name(accounts: Seq<AccountView>, id: Seq<char>) -> Seq<char> {
    match account_index(accounts, id) {
        Some(a) => label_spec(accounts[a].display_name, accounts[a].username),
        None => id,
    }
}

/// What a failed registration shows.
pub open spec fn registration_failed_actions(accounts: Seq<AccountView>, id: Seq<char>, reason: Seq<char>) -> Seq<ActionView> {
    seq![
        ActionView::ShowBanner {
            title: account_name(accounts, id) + ": Registration failed: "@ + reason,
            button: Some("Reconnect"@),
        },
        ActionView::RefreshDialpadAccounts,
    ]
}

// ── Call events ──────────────────────────────────────────────────────────────

/// The history record of a finished call: answered calls last from their
/// connection until `now` (never less than zero, cut to 32 bits); unanswered
/// incoming calls are missed, unanswered outgoing calls failed.
pub open spec fn finished_record(p: PendingView, now: i64) -> RecordView {
    RecordView {
        direction: p.direction,
        status: match p.connected_at {
            Some(_) => Status::Answered,
            None => if p.direction == Direction::Incoming { Status::Missed } else { Status::Failed },
        },
        number: p.number,
        started_at: p.started_at,
        duration_secs: match p.connected_at {
            Some(t) => (if now - t < 0 { 0 } else { now - t }) as u32,
            None => 0,
        },
    }
}

/// What closing the tracked call shows.
pub open spec fn finalize_actions(pending: Option<PendingView>, now: i64) -> Seq<ActionView> {
    match pending {
        Some(p) => seq![ActionView::PrependCallRow, ActionView::SaveCallLog],
        None => Seq::empty(),
    }
}

/// The history once the tracked call is closed.
pub open spec fn finalize_log(log: Seq<RecordView>, pending: Option<PendingView>, now: i64) -> Seq<RecordView> {
    match pending {
        Some(p) => pushed(log, finished_record(p, now)),
        None => log,
    }
}

/// Everything the window decides on once the current call is over.
pub open spec fn call_over(w: WindowView, now: i64) -> WindowView {
    WindowView {
        active_account_id: None,
        pending_call: None,
        call_log: finalize_log(w.call_log, w.pending_call, now),
        audio_active: false,
        consult_active: false,
        ..w
    }
}

/// The actions that tear a call down.
pub open spec fn teardown_actions() -> Seq<ActionView> {
    seq![
        ActionView::StopRinger,
        ActionView::StopAudio,
        ActionView::StopConsultAudio,
        ActionView::StopTimer,
        ActionView::ShowCallScreen(false),
    ]
}

/// The state after a SIP event of the account `id` at time `now`.
pub open spec fn event_state(w: WindowView, id: Seq<char>, ev: SipEventView, now: i64) -> WindowView {
    match ev {
        SipEventView::Registered => WindowView { engines: set_registered(w.engines, id, true, Some(now)), ..w },
        SipEventView::RegistrationFailed(_) => WindowView { engines: set_registered(w.engines, id, false, None), ..w },
        SipEventView::IncomingCall { from } => WindowView {
            active_account_id: Some(id),
            primary_caller: from,
            pending_call: Some(PendingView {
                direction: Direction::Incoming,
                number: from,
                started_at: now,
                connected_at: None,
            }),
            ..w
        },
        SipEventView::CallConnected => WindowView {
            pending_call: match w.pending_call {
                Some(p) => Some(PendingView { connected_at: Some(now), ..p }),
                None => None,
            },
            ..w
        },
        SipEventView::CallEnded => call_over(w, now),
        SipEventView::CallFailed(_) => call_over(w, now),
        SipEventView::TransferOk => call_over(w, now),
        SipEventView::ConsultEnded => WindowView { consult_active: false, ..w },
        _ => w,
    }
}

pub open spec fn media_of(l: u16, ip: Seq<char>, rp: u16, c: u8) -> MediaView {
    MediaView { local_rtp_port: l, remote_ip: ip, remote_rtp_port: rp, codec: c }
}

/// The actions of a SIP event of the account `id` at time `now`.
pub open spec fn event_actions(w: WindowView, id: Seq<char>, ev: SipEventView, now: i64, accounts: Seq<AccountView>) -> Seq<ActionView> {
    match ev {
        SipEventView::Registered => registered_actions(w.engines, id, now, accounts),
        SipEventView::RegistrationFailed(reason) => registration_failed_actions(accounts, id, reason),
        SipEventView::IncomingCall { from } => seq![
            ActionView::SetCaller(display_name_spec(from)),
            ActionView::SetDuration("Incoming call…"@),
            ActionView::ShowAnswerButton(true),
            ActionView::ShowCallScreen(true),
            ActionView::StartRinger(RingTone::Incoming),
        ],
        SipEventView::CallConnected => seq![
            ActionView::StopRinger,
            ActionView::ShowAnswerButton(false),
            ActionView::StartTimer,
        ],
        SipEventView::CallMedia { local_rtp_port, remote_ip, remote_rtp_port, codec } =>
            seq![ActionView::StartAudio(media_of(local_rtp_port, remote_ip, remote_rtp_port, codec))],
        SipEventView::CallEnded =>
            teardown_actions() + seq![ActionView::ClearDialpad] + finalize_actions(w.pending_call, now),
        SipEventView::CallFailed(reason) =>
            teardown_actions() + seq![error_toast("Call failed: "@ + reason)] + finalize_actions(w.pending_call, now),
        SipEventView::TransferOk =>
            teardown_actions() + finalize_actions(w.pending_call, now)
                + seq![ActionView::Toast { text: "Call transferred successfully"@, timeout: Some(4), copy_button: false }],
        SipEventView::TransferFailed(reason) => seq![error_toast("Transfer failed: "@ + reason)],
        SipEventView::ConsultConnected => seq![ActionView::EnterConsultMode(w.primary_caller)],
        SipEventView::ConsultMedia { local_rtp_port, remote_ip, remote_rtp_port, codec } =>
            seq![ActionView::StartConsultAudio(media_of(local_rtp_port, remote_ip, remote_rtp_port, codec))],
        SipEventView::ConsultEnded =>
            seq![ActionView::StopConsultAudio, ActionView::ExitConsultMode]
                + (if w.audio_active { seq![ActionView::ResumeAudio] } else { Seq::empty() }),
    }
}

fn text_of(lit: &str) -> (s: String)
    ensures
        s@ == lit@,
{
    String::from_str(lit)
}

fn error_toast_action(prefix: &str, reason: &String) -> (a: UiAction)
    ensures
        a@ == error_toast(prefix@ + reason@),
{
    let mut t = String::from_str(prefix);
    append_str(&mut t, reason.as_str());
    UiAction::Toast { text: t, timeout: Some(10), copy_button: true }
}

impl WindowState {
    fn all_engines_registered(&self) -> (b: bool)
        ensures
            b == all_registered(self@.engines),
    {
        let mut i: usize = 0;
        while i < self.engines.len()
            invariant
                i <= self.engines@.len(),
                forall|k: int| 0 <= k < i ==> #[trigger] self@.engines[k].registered,
            decreases self.engines@.len() - i,
        {
            if !self.engines[i].registered {
                assert(!self@.engines[i as int].registered);
                return false;
            }
            i = i + 1;
        }
        true
    }

    /// Marks the engine of `id` as registered or not; `ok_at` records the
    /// time of a successful registration.
    fn mark(&mut self, id: &String, registered: bool, ok_at: Option<i64>) -> (first: bool)
        ensures
            final(self)@ == (WindowView { engines: set_registered(old(self)@.engines, id@, registered, ok_at), ..old(self)@ }),
            first == first_registration(old(self)@.engines, id@),
    {
        match self.find_engine(id) {
            Some(k) => {
                let was = self.engines[k].registered;
                let ghost before = self.engines@;
                self.engines[k].registered = registered;
                match ok_at {
                    Some(t) => { self.engines[k].last_register_ok = Some(t); },
                    None => {},
                }
                assert(engines_view(self.engines@) =~= set_registered(engines_view(before), id@, registered, ok_at));
                !was
            },
            None => false,
        }
    }

    fn on_registered(&mut self, id: &String, now: i64, accounts: &Vec<Account>) -> (actions: Vec<UiAction>)
        ensures
            final(self)@ == event_state(old(self)@, id@, SipEventView::Registered, now),
            actions_view(actions@) == event_actions(old(self)@, id@, SipEventView::Registered, now, accounts_view(accounts@)),
    {
        let first = self.mark(id, true, Some(now));
        let mut actions: Vec<UiAction> = Vec::new();
        if self.all_engines_registered() {
            actions.push(UiAction::HideBanner);
        }
        let ghost a1 = actions_view(actions@);
        if first {
            match find_account(accounts, id) {
                Some(a) => {
                    let mut t = text_of("Registered as ");
                    append_str(&mut t, accounts[a].username.as_str());
                    push_at(&mut t);
                    append_str(&mut t, accounts[a].server.as_str());
                    assert(t@ =~= registered_text(accounts_view(accounts@)[a as int]));
                    actions.push(UiAction::Toast { text: t, timeout: Some(4), copy_button: false });
                },
                None => {},
            }
            actions.push(UiAction::RefreshDialpadAccounts);
        }
        assert(actions_view(actions@) =~= event_actions(old(self)@, id@, SipEventView::Registered, now, accounts_view(accounts@)));
        actions
    }

    fn on_registration_failed(&mut self, id: &String, reason: &String, accounts: &Vec<Account>) -> (actions: Vec<UiAction>)
        ensures
            final(self)@ == event_state(old(self)@, id@, SipEventView::RegistrationFailed(reason@), 0),
            actions_view(actions@) == registration_failed_actions(accounts_view(accounts@), id@, reason@),
    {
        let _ = self.mark(id, false, None);
        let mut title = match find_account(accounts, id) {
            Some(a) => accounts[a].label(),
            None => id.clone(),
        };
        append_str(&mut title, ": Registration failed: ");
        append_str(&mut title, reason.as_str());
        let mut actions: Vec<UiAction> = Vec::new();
        actions.push(UiAction::ShowBanner { title, button: Some(text_of("Reconnect")) });
        actions.push(UiAction::RefreshDialpadAccounts);
        assert(actions_view(actions@) =~= registration_failed_actions(accounts_view(accounts@), id@, reason@));
        actions
    }
}

fn push_at(s: &mut String)
    ensures
        final(s)@ == old(s)@ + seq!['@'],
{
    crate::text::push_char(s, '@');
    assert(old(s)@.push('@') =~= old(s)@ + seq!['@']);
}

impl WindowState {
    fn on_incoming_call(&mut self, id: &String, from: String, now: i64) -> (actions: Vec<UiAction>)
        ensures
            final(self)@ == event_state(old(self)@, id@, SipEventView::IncomingCall { from: from@ }, now),
            actions_view(actions@) == event_actions(old(self)@, id@, SipEventView::IncomingCall { from: from@ }, now, Seq::empty()),
    {
        self.active_account_id = Some(id.clone());
        self.primary_caller = from.clone();
        let shown = display_name(from.as_str());
        self.pending_call = Some(PendingCall {
            direction: Direction::Incoming,
            number: from,
            started_at: now,
            connected_at: None,
        });
        let mut actions: Vec<UiAction> = Vec::new();
        actions.push(UiAction::SetCaller(shown));
        actions.push(UiAction::SetDuration(text_of("Incoming call…")));
        actions.push(UiAction::ShowAnswerButton(true));
        actions.push(UiAction::ShowCallScreen(true));
        actions.push(UiAction::StartRinger(RingTone::Incoming));
        assert(actions_view(actions@) =~= event_actions(old(self)@, id@, SipEventView::IncomingCall { from: from@ }, now, Seq::empty()));
        actions
    }

    fn on_call_connected(&mut self, now: i64) -> (actions: Vec<UiAction>)
        ensures
            final(self)@ == event_state(old(self)@, Seq::empty(), SipEventView::CallConnected, now),
            actions_view(actions@) == event_actions(old(self)@, Seq::empty(), SipEventView::CallConnected, now, Seq::empty()),
    {
        match self.pending_call.take() {
            Some(p) => {
                self.pending_call = Some(PendingCall { connected_at: Some(now), ..p });
            },
            None => {},
        }
        let mut actions: Vec<UiAction> = Vec::new();
        actions.push(UiAction::StopRinger);
        actions.push(UiAction::ShowAnswerButton(false));
        actions.push(UiAction::StartTimer);
        assert(actions_view(actions@) =~= event_actions(old(self)@, Seq::empty(), SipEventView::CallConnected, now, Seq::empty()));
        actions
    }

    /// Closes the tracked call: its record goes to the top of the history.
    fn finalize_pending_call(&mut self, now: i64, actions: &mut Vec<UiAction>)
        ensures
            final(self)@ == (WindowView {
                pending_call: None,
                call_log: finalize_log(old(self)@.call_log, old(self)@.pending_call, now),
                ..old(self)@
            }),
            actions_view(final(actions)@) == actions_view(old(actions)@) + finalize_actions(old(self)@.pending_call, now),
    {
        let pending = match self.pending_call.take() {
            Some(p) => p,
            None => {
                assert(actions_view(actions@) =~= actions_view(old(actions)@) + finalize_actions(old(self)@.pending_call, now));
                return;
            },
        };
        let (status, duration_secs) = match pending.connected_at {
            Some(t) => {
                let d: i128 = now as i128 - t as i128;
                let d: i128 = if d < 0 { 0 } else { d };
                (Status::Answered, d as u32)
            },
            None => {
                let status = if pending.direction == Direction::Incoming { Status::Missed } else { Status::Failed };
                (status, 0u32)
            },
        };
        let record = Record {
            direction: pending.direction,
            status,
            number: pending.number,
            started_at: pending.started_at,
            duration_secs,
        };
        assert(record@ == finished_record(old(self)@.pending_call->0, now));
        self.call_log.push(record);
        actions.push(UiAction::PrependCallRow);
        actions.push(UiAction::SaveCallLog);
        assert(actions_view(actions@) =~= actions_view(old(actions)@) + finalize_actions(old(self)@.pending_call, now));
    }

    /// Stops everything a call holds; the engine's call is over.
    fn tear_down(&mut self, actions: &mut Vec<UiAction>)
        ensures
            final(self)@ == (WindowView {
                active_account_id: None,
                audio_active: false,
                consult_active: false,
                ..old(self)@
            }),
            actions_view(final(actions)@) == actions_view(old(actions)@) + teardown_actions(),
    {
        self.active_account_id = None;
        self.audio_active = false;
        self.consult_active = false;
        actions.push(UiAction::StopRinger);
        actions.push(UiAction::StopAudio);
        actions.push(UiAction::StopConsultAudio);
        actions.push(UiAction::StopTimer);
        actions.push(UiAction::ShowCallScreen(false));
        assert(actions_view(actions@) =~= actions_view(old(actions)@) + teardown_actions());
    }

    /// Handles an event that the SIP engine of the account `account_id`
    /// reported at time `now`; `accounts` are the configured accounts.
    pub fn handle_sip_event(&mut self, account_id: String, event: SipEvent, now: i64, accounts: &Vec<Account>) -> (actions: Vec<UiAction>)
        ensures
            final(self)@ == event_state(old(self)@, account_id@, event@, now),
            actions_view(actions@) == event_actions(old(self)@, account_id@, event@, now, accounts_view(accounts@)),
    {
        match event {
            SipEvent::Registered => self.on_registered(&account_id, now, accounts),
            SipEvent::RegistrationFailed(reason) => self.on_registration_failed(&account_id, &reason, accounts),
            SipEvent::IncomingCall { from } => self.on_incoming_call(&account_id, from, now),
            SipEvent::CallConnected => self.on_call_connected(now),
            SipEvent::CallMedia { local_rtp_port, remote_ip, remote_rtp_port, codec } => {
                let mut actions: Vec<UiAction> = Vec::new();
                actions.push(UiAction::StartAudio(Media { local_rtp_port, remote_ip, remote_rtp_port, codec }));
                assert(actions_view(actions@) =~= event_actions(old(self)@, account_id@, event@, now, accounts_view(accounts@)));
                actions
            },
            SipEvent::CallEnded => {
                let mut actions: Vec<UiAction> = Vec::new();
                self.tear_down(&mut actions);
                actions.push(UiAction::ClearDialpad);
                self.finalize_pending_call(now, &mut actions);
                assert(actions_view(actions@) =~= event_actions(old(self)@, account_id@, event@, now, accounts_view(accounts@)));
                actions
            },
            SipEvent::CallFailed(reason) => {
                let mut actions: Vec<UiAction> = Vec::new();
                self.tear_down(&mut actions);
                actions.push(error_toast_action("Call failed: ", &reason));
                self.finalize_pending_call(now, &mut actions);
                assert(actions_view(actions@) =~= event_actions(old(self)@, account_id@, event@, now, accounts_view(accounts@)));
                actions
            },
            SipEvent::TransferOk => {
                let mut actions: Vec<UiAction> = Vec::new();
                self.tear_down(&mut actions);
                self.finalize_pending_call(now, &mut actions);
                actions.push(UiAction::Toast { text: text_of("Call transferred successfully"), timeout: Some(4), copy_button: false });
                assert(actions_view(actions@) =~= event_actions(old(self)@, account_id@, event@, now, accounts_view(accounts@)));
                actions
            },
            SipEvent::TransferFailed(reason) => {
                let mut actions: Vec<UiAction> = Vec::new();
                actions.push(error_toast_action("Transfer failed: ", &reason));
                assert(actions_view(actions@) =~= event_actions(old(self)@, account_id@, event@, now, accounts_view(accounts@)));
                actions
            },
            SipEvent::ConsultConnected => {
                let mut actions: Vec<UiAction> = Vec::new();
                actions.push(UiAction::EnterConsultMode(self.primary_caller.clone()));
                assert(actions_view(actions@) =~= event_actions(old(self)@, account_id@, event@, now, accounts_view(accounts@)));
                actions
            },
            SipEvent::ConsultMedia { local_rtp_port, remote_ip, remote_rtp_port, codec } => {
                let mut actions: Vec<UiAction> = Vec::new();
                actions.push(UiAction::StartConsultAudio(Media { local_rtp_port, remote_ip, remote_rtp_port, codec }));
                assert(actions_view(actions@) =~= event_actions(old(self)@, account_id@, event@, now, accounts_view(accounts@)));
                actions
            },
            SipEvent::ConsultEnded => {
                self.consult_active = false;
                let mut actions: Vec<UiAction> = Vec::new();
                actions.push(UiAction::StopConsultAudio);
                actions.push(UiAction::ExitConsultMode);
                if self.audio_active {
                    actions.push(UiAction::ResumeAudio);
                }
                assert(actions_view(actions@) =~= event_actions(old(self)@, account_id@, event@, now, accounts_view(accounts@)));
                actions
            },
        }
    }

    /// Records the outcome of starting the call's audio session.
    pub fn audio_started(&mut self, result: Result<(), String>) -> (actions: Vec<UiAction>)
        ensures
            final(self)@ == (WindowView { audio_active: old(self)@.audio_active || result is Ok, ..old(self)@ }),
            actions_view(actions@) == match result {
                Ok(_) => Seq::<ActionView>::empty(),
                Err(e) => seq![error_toast("Audio failed: "@ + e@)],
            },
    {
        let mut actions: Vec<UiAction> = Vec::new();
        match result {
            Ok(()) => { self.audio_active = true; },
            Err(e) => { actions.push(error_toast_action("Audio failed: ", &e)); },
        }
        assert(actions_view(actions@) =~= match result {
            Ok(_) => Seq::<ActionView>::empty(),
            Err(e) => seq![error_toast("Audio failed: "@ + e@)],
        });
        actions
    }

    /// Records the outcome of starting the consultation's audio session.
    pub fn consult_audio_started(&mut self, result: Result<(), String>) -> (actions: Vec<UiAction>)
        ensures
            final(self)@ == (WindowView { consult_active: old(self)@.consult_active || result is Ok, ..old(self)@ }),
            actions_view(actions@) == match result {
                Ok(_) => Seq::<ActionView>::empty(),
                Err(e) => seq![error_toast("Consult audio failed: "@ + e@)],
            },
    {
        let mut actions: Vec<UiAction> = Vec::new();
        match result {
            Ok(()) => { self.consult_active = true; },
            Err(e) => { actions.push(error_toast_action("Consult audio failed: ", &e)); },
        }
        assert(actions_view(actions@) =~= match result {
            Ok(_) => Seq::<ActionView>::empty(),
            Err(e) => seq![error_toast("Consult audio failed: "@ + e@)],
        });
        actions
    }
}

// ── Engines ──────────────────────────────────────────────────────────────────

/// The window once an engine for the account `a` is started: nothing
/// changes when the account has an engine already or names no server.
pub open spec fn connect_state(w: WindowView, a: AccountView, now: i64) -> WindowView {
    if engine_index(w.engines, a.id) is Some || a.server.len() == 0 {
        w
    } else {
        WindowView {
            engines: w.engines.push(EngineView { account_id: a.id, registered: false, last_register_ok: Some(now) }),
            keepalive_started: true,
            ..w
        }
    }
}

pub open spec fn connect_actions(w: WindowView, a: AccountView) -> Seq<ActionView> {
    if engine_index(w.engines, a.id) is Some || a.server.len() == 0 {
        Seq::empty()
    } else {
        seq![ActionView::StartEngine(a)]
            + (if w.keepalive_started { Seq::empty() } else { seq![ActionView::StartKeepalive] })
    }
}

/// The engines other than those of the account `id`, in order.
pub open spec fn without(engines: Seq<EngineView>, id: Seq<char>) -> Seq<EngineView>
    decreases engines.len(),
{
    if engines.len() == 0 {
        Seq::empty()
    } else {
        let rest = without(engines.drop_last(), id);
        if engines.last().account_id == id { rest } else { rest.push(engines.last()) }
    }
}

pub open spec fn disconnect_actions(id: Seq<char>) -> Seq<ActionView> {
    seq![ActionView::DropEngine(id), ActionView::RefreshDialpadAccounts]
}

/// The window once the account `id` is disconnected and connected again
/// from its configuration.
pub open spec fn by_id_state(w: WindowView, id: Seq<char>, accounts: Seq<AccountView>, now: i64) -> WindowView {
    let w1 = WindowView { engines: without(w.engines, id), ..w };
    match account_index(accounts, id) {
        Some(k) => connect_state(w1, accounts[k], now),
        None => w1,
    }
}

pub open spec fn by_id_actions(w: WindowView, id: Seq<char>, accounts: Seq<AccountView>, now: i64) -> Seq<ActionView> {
    let w1 = WindowView { engines: without(w.engines, id), ..w };
    disconnect_actions(id) + match account_index(accounts, id) {
        Some(k) => connect_actions(w1, accounts[k]),
        None => Seq::empty(),
    }
}

/// Starting, one after the other, the engines of those of `ids` that name a
/// configured account.
pub open spec fn connect_ids(w: WindowView, ids: Seq<Seq<char>>, accounts: Seq<AccountView>, now: i64) -> (WindowView, Seq<ActionView>)
    decreases ids.len(),
{
    if ids.len() == 0 {
        (w, Seq::empty())
    } else {
        let (w1, a1) = connect_ids(w, ids.drop_last(), accounts, now);
        match account_index(accounts, ids.last()) {
            Some(k) => (connect_state(w1, accounts[k], now), a1 + connect_actions(w1, accounts[k])),
            None => (w1, a1),
        }
    }
}

/// Reconnecting, one after the other, the accounts `ids`.
pub open spec fn reconnect_ids(w: WindowView, ids: Seq<Seq<char>>, accounts: Seq<AccountView>, now: i64) -> (WindowView, Seq<ActionView>)
    decreases ids.len(),
{
    if ids.len() == 0 {
        (w, Seq::empty())
    } else {
        let (w1, a1) = reconnect_ids(w, ids.drop_last(), accounts, now);
        (by_id_state(w1, ids.last(), accounts, now), a1 + by_id_actions(w1, ids.last(), accounts, now))
    }
}

pub open spec fn ids_of(engines: Seq<EngineView>) -> Seq<Seq<char>> {
    engines.map_values(|e: EngineView| e.account_id)
}

/// Dropping every engine and starting again those whose account is still
/// configured.
pub open spec fn reconnect_all_result(w: WindowView, accounts: Seq<AccountView>, now: i64) -> (WindowView, Seq<ActionView>) {
    let (w1, a1) = connect_ids(WindowView { engines: Seq::empty(), ..w }, ids_of(w.engines), accounts, now);
    (w1, seq![ActionView::DropAllEngines] + a1)
}

/// The accounts whose last confirmed registration is more than 180 s old.
pub open spec fn stale_ids(engines: Seq<EngineView>, now: i64) -> Seq<Seq<char>>
    decreases engines.len(),
{
    if engines.len() == 0 {
        Seq::empty()
    } else {
        let rest = stale_ids(engines.drop_last(), now);
        match engines.last().last_register_ok {
            Some(t) => if now - t > 180 { rest.push(engines.last().account_id) } else { rest },
            None => rest,
        }
    }
}

/// One tick of the keep-alive timer: every engine refreshes its
/// registration; when no call is in progress, the accounts whose
/// registration is stale are reconnected.
pub open spec fn keepalive_result(w: WindowView, now: i64, accounts: Seq<AccountView>) -> (WindowView, Seq<ActionView>) {
    let refresh = w.engines.map_values(|e: EngineView| ActionView::Reregister(e.account_id));
    if !w.audio_active && w.active_account_id is None {
        let (w1, a1) = reconnect_ids(w, stale_ids(w.engines, now), accounts, now);
        (w1, refresh + a1)
    } else {
        (w, refresh)
    }
}

/// Whether some engine confirmed its registration less than 30 s ago.
pub open spec fn recently_registered(engines: Seq<EngineView>, now: i64) -> bool {
    exists|i: int| 0 <= i < engines.len() && (#[trigger] engines[i].last_register_ok matches Some(t) && now - t < 30)
}

/// What a change of network availability does: when the network is back,
/// no call is in progress, some engine runs and none registered recently,
/// every engine is reconnected.
pub open spec fn network_result(w: WindowView, available: bool, now: i64, accounts: Seq<AccountView>) -> (WindowView, Seq<ActionView>) {
    if !available || w.audio_active || w.active_account_id is Some || w.engines.len() == 0
        || recently_registered(w.engines, now) {
        (w, Seq::empty())
    } else {
        reconnect_all_result(w, accounts, now)
    }
}

/// Starting the engines of those `accounts` registered on startup, in order.
pub open spec fn startup_connect(w: WindowView, accounts: Seq<AccountView>, now: i64) -> (WindowView, Seq<ActionView>)
    decreases accounts.len(),
{
    if accounts.len() == 0 {
        (w, Seq::empty())
    } else {
        let (w1, a1) = startup_connect(w, accounts.drop_last(), now);
        if accounts.last().register_on_startup {
            (connect_state(w1, accounts.last(), now), a1 + connect_actions(w1, accounts.last()))
        } else {
            (w1, a1)
        }
    }
}

/// Whether some account is registered on startup.
pub open spec fn any_on_startup(accounts: Seq<AccountView>) -> bool {
    exists|i: int| 0 <= i < accounts.len() && #[trigger] accounts[i].register_on_startup
}

/// What the window does when it opens with the configured `accounts`.
pub open spec fn startup_result(w: WindowView, accounts: Seq<AccountView>, now: i64) -> (WindowView, Seq<ActionView>) {
    if accounts.len() == 0 {
        (w, seq![ActionView::ShowBanner {
            title: "No accounts configured — tap Configure"@,
            button: Some("Configure"@),
        }])
    } else if any_on_startup(accounts) {
        let (w1, a1) = startup_connect(w, accounts, now);
        (w1, seq![ActionView::ShowBanner { title: "Registering…"@, button: None }] + a1)
    } else {
        (w, Seq::empty())
    }
}

impl WindowState {
    /// Starts an engine for `account` unless it has one or names no server.
    pub fn connect_account(&mut self, account: &Account, now: i64, actions: &mut Vec<UiAction>)
        ensures
            final(self)@ == connect_state(old(self)@, account@, now),
            actions_view(final(actions)@) == actions_view(old(actions)@) + connect_actions(old(self)@, account@),
    {
        if self.find_engine(&account.id).is_some() || account.server.as_str().is_empty() {
            assert(actions_view(actions@) =~= actions_view(old(actions)@) + connect_actions(old(self)@, account@));
            return;
        }
        actions.push(UiAction::StartEngine(account.duplicate()));
        self.engines.push(ActiveEngine { account_id: account.id.clone(), registered: false, last_register_ok: Some(now) });
        if !self.keepalive_started {
            self.keepalive_started = true;
            actions.push(UiAction::StartKeepalive);
        }
        assert(engines_view(self.engines@) =~= engines_view(old(self).engines@).push(
            EngineView { account_id: account@.id, registered: false, last_register_ok: Some(now) }));
        assert(actions_view(actions@) =~= actions_view(old(actions)@) + connect_actions(old(self)@, account@));
    }

    fn remove_engines(&mut self, id: &String)
        ensures
            final(self)@ == (WindowView { engines: without(old(self)@.engines, id@), ..old(self)@ }),
    {
        let mut kept: Vec<ActiveEngine> = Vec::new();
        let mut i: usize = 0;
        let ghost e = old(self)@.engines;
        while i < self.engines.len()
            invariant
                i <= self.engines@.len(),
                e == engines_view(self.engines@),
                engines_view(kept@) == without(e.subrange(0, i as int), id@),
            decreases self.engines@.len() - i,
        {
            assert(e.subrange(0, i + 1).drop_last() =~= e.subrange(0, i as int));
            if self.engines[i].account_id != *id {
                let entry = ActiveEngine {
                    account_id: self.engines[i].account_id.clone(),
                    registered: self.engines[i].registered,
                    last_register_ok: self.engines[i].last_register_ok,
                };
                let ghost before = kept@;
                kept.push(entry);
                assert(engines_view(kept@) =~= engines_view(before).push(e[i as int]));
            }
            i = i + 1;
        }
        assert(e.subrange(0, e.len() as int) =~= e);
        self.engines = kept;
    }

    /// Drops the engine of the account `id`.
    pub fn disconnect_account(&mut self, id: &String) -> (actions: Vec<UiAction>)
        ensures
            final(self)@ == (WindowView { engines: without(old(self)@.engines, id@), ..old(self)@ }),
            actions_view(actions@) == disconnect_actions(id@),
    {
        self.remove_engines(id);
        let mut actions: Vec<UiAction> = Vec::new();
        actions.push(UiAction::DropEngine(id.clone()));
        actions.push(UiAction::RefreshDialpadAccounts);
        assert(actions_view(actions@) =~= disconnect_actions(id@));
        actions
    }

    fn connect_by_id_into(&mut self, id: &String, accounts: &Vec<Account>, now: i64, actions: &mut Vec<UiAction>)
        ensures
            final(self)@ == by_id_state(old(self)@, id@, accounts_view(accounts@), now),
            actions_view(final(actions)@) == actions_view(old(actions)@) + by_id_actions(old(self)@, id@, accounts_view(accounts@), now),
    {
        self.remove_engines(id);
        actions.push(UiAction::DropEngine(id.clone()));
        actions.push(UiAction::RefreshDialpadAccounts);
        assert(actions_view(actions@) =~= actions_view(old(actions)@) + disconnect_actions(id@));
        match find_account(accounts, id) {
            Some(k) => {
                self.connect_account(&accounts[k], now, actions);
            },
            None => {},
        }
        assert(actions_view(actions@) =~= actions_view(old(actions)@) + by_id_actions(old(self)@, id@, accounts_view(accounts@), now));
    }

    /// Disconnects the account `id` and connects it again from `accounts`.
    pub fn connect_account_by_id(&mut self, id: &String, accounts: &Vec<Account>, now: i64) -> (actions: Vec<UiAction>)
        ensures
            final(self)@ == by_id_state(old(self)@, id@, accounts_view(accounts@), now),
            actions_view(actions@) == by_id_actions(old(self)@, id@, accounts_view(accounts@), now),
    {
        let mut actions: Vec<UiAction> = Vec::new();
        self.connect_by_id_into(id, accounts, now, &mut actions);
        assert(actions_view(actions@) =~= by_id_actions(old(self)@, id@, accounts_view(accounts@), now));
        actions
    }

    fn engine_ids(&self) -> (ids: Vec<String>)
        ensures
            ids@.map_values(|s: String| s@) == ids_of(self@.engines),
    {
        let mut ids: Vec<String> = Vec::new();
        let mut i: usize = 0;
        while i < self.engines.len()
            invariant
                i <= self.engines@.len(),
                ids@.map_values(|s: String| s@) == ids_of(self@.engines).subrange(0, i as int),
            decreases self.engines@.len() - i,
        {
            let ghost prev = ids@;
            let x = self.engines[i].account_id.clone();
            assert(x@ == ids_of(self@.engines)[i as int]);
            ids.push(x);
            assert(ids@ == prev.push(x));
            assert(ids@.map_values(|s: String| s@) =~= prev.map_values(|s: String| s@).push(x@));
            i = i + 1;
            assert(ids@.map_values(|s: String| s@) =~= ids_of(self@.engines).subrange(0, i as int));
        }
        assert(ids_of(self@.engines).subrange(0, self.engines@.len() as int) =~= ids_of(self@.engines));
        ids
    }

    /// Drops every engine and starts again those whose account is still in
    /// `accounts`.
    pub fn reconnect_all(&mut self, accounts: &Vec<Account>, now: i64) -> (actions: Vec<UiAction>)
        ensures
            (final(self)@, actions_view(actions@)) == reconnect_all_result(old(self)@, accounts_view(accounts@), now),
    {
        let ids = self.engine_ids();
        let ghost idv = ids@.map_values(|s: String| s@);
        self.engines.clear();
        assert(engines_view(self.engines@) =~= Seq::<EngineView>::empty());
        let ghost w0 = self@;
        assert(w0 == (WindowView { engines: Seq::empty(), ..old(self)@ }));
        let mut actions: Vec<UiAction> = Vec::new();
        actions.push(UiAction::DropAllEngines);
        let mut i: usize = 0;
        while i < ids.len()
            invariant
                i <= ids@.len(),
                idv == ids@.map_values(|s: String| s@),
                (self@, actions_view(actions@)) == ({
                    let (w1, a1) = connect_ids(w0, idv.subrange(0, i as int), accounts_view(accounts@), now);
                    (w1, seq![ActionView::DropAllEngines] + a1)
                }),
            decreases ids@.len() - i,
        {
            assert(idv.subrange(0, i + 1).drop_last() =~= idv.subrange(0, i as int));
            let ghost a_before = actions_view(actions@);
            match find_account(accounts, &ids[i]) {
                Some(k) => {
                    self.connect_account(&accounts[k], now, &mut actions);
                },
                None => {},
            }
            i = i + 1;
            assert(actions_view(actions@) =~= ({
                let (w1, a1) = connect_ids(w0, idv.subrange(0, i as int), accounts_view(accounts@), now);
                seq![ActionView::DropAllEngines] + a1
            }));
        }
        assert(idv.subrange(0, ids@.len() as int) =~= idv);
        actions
    }
}


// ── Timers, network and startup ─────────────────────────────────────────────

impl WindowState {
    fn stale_engine_ids(&self, now: i64) -> (ids: Vec<String>)
        ensures
            ids@.map_values(|s: String| s@) == stale_ids(self@.engines, now),
    {
        let mut ids: Vec<String> = Vec::new();
        let mut i: usize = 0;
        while i < self.engines.len()
            invariant
                i <= self.engines@.len(),
                ids@.map_values(|s: String| s@) == stale_ids(self@.engines.subrange(0, i as int), now),
            decreases self.engines@.len() - i,
        {
            let ghost prev = ids@;
            assert(self@.engines.subrange(0, i + 1).drop_last() =~= self@.engines.subrange(0, i as int));
            assert(self@.engines.subrange(0, i + 1).last() == self@.engines[i as int]);
            match self.engines[i].last_register_ok {
                Some(t) => {
                    if (now as i128) - (t as i128) > 180 {
                        let x = self.engines[i].account_id.clone();
                        ids.push(x);
                        assert(ids@.map_values(|s: String| s@) =~= prev.map_values(|s: String| s@).push(x@));
                    }
                },
                None => {},
            }
            i = i + 1;
        }
        assert(self@.engines.subrange(0, self.engines@.len() as int) =~= self@.engines);
        ids
    }

    /// One tick of the keep-alive timer at time `now`.
    pub fn keepalive_tick(&mut self, now: i64, accounts: &Vec<Account>) -> (actions: Vec<UiAction>)
        ensures
            (final(self)@, actions_view(actions@)) == keepalive_result(old(self)@, now, accounts_view(accounts@)),
    {
        let ghost refresh = self@.engines.map_values(|e: EngineView| ActionView::Reregister(e.account_id));
        let mut actions: Vec<UiAction> = Vec::new();
        let mut i: usize = 0;
        while i < self.engines.len()
            invariant
                i <= self.engines@.len(),
                self@ == old(self)@,
                refresh == self@.engines.map_values(|e: EngineView| ActionView::Reregister(e.account_id)),
                actions_view(actions@) == refresh.subrange(0, i as int),
            decreases self.engines@.len() - i,
        {
            let ghost prev = actions_view(actions@);
            actions.push(UiAction::Reregister(self.engines[i].account_id.clone()));
            assert(actions_view(actions@) =~= prev.push(refresh[i as int]));
            i = i + 1;
            assert(actions_view(actions@) =~= refresh.subrange(0, i as int));
        }
        assert(refresh.subrange(0, refresh.len() as int) =~= refresh);
        if !self.audio_active && self.active_account_id.is_none() {
            let stale = self.stale_engine_ids(now);
            let ghost sv = stale@.map_values(|s: String| s@);
            let ghost w0 = self@;
            let ghost av = accounts_view(accounts@);
            assert(refresh + Seq::<ActionView>::empty() =~= refresh);
            let mut j: usize = 0;
            while j < stale.len()
                invariant
                    j <= stale@.len(),
                    sv == stale@.map_values(|s: String| s@),
                    av == accounts_view(accounts@),
                    self@ == reconnect_ids(w0, sv.subrange(0, j as int), av, now).0,
                    actions_view(actions@) == refresh + reconnect_ids(w0, sv.subrange(0, j as int), av, now).1,
                decreases stale@.len() - j,
            {
                assert(sv.subrange(0, j + 1).drop_last() =~= sv.subrange(0, j as int));
                let ghost a0 = reconnect_ids(w0, sv.subrange(0, j as int), av, now).1;
                self.connect_by_id_into(&stale[j], accounts, now, &mut actions);
                j = j + 1;
                assert(actions_view(actions@) =~= refresh + reconnect_ids(w0, sv.subrange(0, j as int), av, now).1);
            }
            assert(sv.subrange(0, sv.len() as int) =~= sv);
        }
        actions
    }

    fn any_recent(&self, now: i64) -> (b: bool)
        ensures
            b == recently_registered(self@.engines, now),
    {
        let mut i: usize = 0;
        while i < self.engines.len()
            invariant
                i <= self.engines@.len(),
                forall|k: int| #![trigger self@.engines[k]] 0 <= k < i
                    ==> !(self@.engines[k].last_register_ok matches Some(t) && now - t < 30),
            decreases self.engines@.len() - i,
        {
            match self.engines[i].last_register_ok {
                Some(t) => {
                    if (now as i128) - (t as i128) < 30 {
                        assert(self@.engines[i as int].last_register_ok matches Some(t) && now - t < 30);
                        return true;
                    }
                },
                None => {},
            }
            i = i + 1;
        }
        false
    }

    /// Reacts to a change of network availability at time `now`.
    pub fn network_changed(&mut self, available: bool, now: i64, accounts: &Vec<Account>) -> (actions: Vec<UiAction>)
        ensures
            (final(self)@, actions_view(actions@)) == network_result(old(self)@, available, now, accounts_view(accounts@)),
    {
        if !available || self.audio_active || self.active_account_id.is_some() || self.engines.len() == 0
            || self.any_recent(now) {
            let actions: Vec<UiAction> = Vec::new();
            assert(actions_view(actions@) =~= Seq::<ActionView>::empty());
            return actions;
        }
        self.reconnect_all(accounts, now)
    }
}

fn any_startup(accounts: &Vec<Account>) -> (b: bool)
    ensures
        b == any_on_startup(accounts_view(accounts@)),
{
    let ghost av = accounts_view(accounts@);
    let mut i: usize = 0;
    while i < accounts.len()
        invariant
            i <= accounts@.len(),
            av == accounts_view(accounts@),
            forall|k: int| 0 <= k < i ==> !(#[trigger] av[k]).register_on_startup,
        decreases accounts@.len() - i,
    {
        if accounts[i].register_on_startup {
            assert(av[i as int].register_on_startup);
            return true;
        }
        i = i + 1;
    }
    false
}

impl WindowState {
    /// What the window does when it opens with the configured `accounts`.
    pub fn startup(&mut self, accounts: &Vec<Account>, now: i64) -> (actions: Vec<UiAction>)
        ensures
            (final(self)@, actions_view(actions@)) == startup_result(old(self)@, accounts_view(accounts@), now),
    {
        let mut actions: Vec<UiAction> = Vec::new();
        if accounts.len() == 0 {
            actions.push(UiAction::ShowBanner {
                title: text_of("No accounts configured — tap Configure"),
                button: Some(text_of("Configure")),
            });
            assert(actions_view(actions@) =~= startup_result(old(self)@, accounts_view(accounts@), now).1);
            return actions;
        }
        if !any_startup(accounts) {
            assert(actions_view(actions@) =~= Seq::<ActionView>::empty());
            return actions;
        }
        actions.push(UiAction::ShowBanner { title: text_of("Registering…"), button: None });
        let ghost banner = actions_view(actions@);
        assert(banner =~= seq![ActionView::ShowBanner { title: "Registering…"@, button: None }]);
        let ghost av = accounts_view(accounts@);
        let ghost w0 = self@;
        assert(av.subrange(0, 0) =~= Seq::<AccountView>::empty());
        assert(banner + Seq::<ActionView>::empty() =~= banner);
        let mut i: usize = 0;
        while i < accounts.len()
            invariant
                i <= accounts@.len(),
                av == accounts_view(accounts@),
                self@ == startup_connect(w0, av.subrange(0, i as int), now).0,
                actions_view(actions@) == banner + startup_connect(w0, av.subrange(0, i as int), now).1,
            decreases accounts@.len() - i,
        {
            assert(av.subrange(0, i + 1).drop_last() =~= av.subrange(0, i as int));
            assert(av.subrange(0, i + 1).last() == av[i as int]);
            if accounts[i].register_on_startup {
                self.connect_account(&accounts[i], now, &mut actions);
            }
            i = i + 1;
            assert(actions_view(actions@) =~= banner + startup_connect(w0, av.subrange(0, i as int), now).1);
        }
        assert(av.subrange(0, av.len() as int) =~= av);
        actions
    }
}

// ── Placing calls ────────────────────────────────────────────────────────────

/// The first engine at or after `i` that is registered and, unless `want` is
/// empty, belongs to the account `want`.
pub open spec fn chosen_from(engines: Seq<EngineView>, want: Seq<char>, i: int) -> Option<int>
    decreases engines.len() - i,
{
    if i < 0 || i >= engines.len() {
        None
    } else if engines[i].registered && (want.len() == 0 || engines[i].account_id == want) {
        Some(i)
    } else {
        chosen_from(engines, want, i + 1)
    }
}

/// The engine that places a call: that of the account `want` if it is
/// registered, or the first registered engine when `want` is empty.
pub open spec fn chosen_engine(engines: Seq<EngineView>, want: Seq<char>) -> Option<int> {
    chosen_from(engines, want, 0)
}

/// Calling `number` through the account `want` at time `now`.
pub open spec fn start_call_result(w: WindowView, number: Seq<char>, want: Seq<char>, now: i64) -> (WindowView, Seq<ActionView>) {
    match chosen_engine(w.engines, want) {
        None => (w, seq![ActionView::Toast {
            text: "No registered account — configure SIP account first"@,
            timeout: None,
            copy_button: false,
        }]),
        Some(k) => (
            WindowView {
                active_account_id: Some(w.engines[k].account_id),
                primary_caller: number,
                pending_call: Some(PendingView {
                    direction: Direction::Outgoing,
                    number,
                    started_at: now,
                    connected_at: None,
                }),
                ..w
            },
            seq![
                ActionView::SetCaller(number),
                ActionView::SetDuration("Calling…"@),
                ActionView::ShowAnswerButton(false),
                ActionView::ShowCallScreen(true),
                ActionView::StartRinger(RingTone::Ringback),
                ActionView::Dial { account_id: w.engines[k].account_id, number },
            ],
        ),
    }
}

/// The account whose engine carries the current call.
pub open spec fn active_engine_spec(w: WindowView) -> Option<Seq<char>> {
    match w.active_account_id {
        Some(id) => if engine_index(w.engines, id) is Some { Some(id) } else { None },
        None => None,
    }
}

/// The registered accounts offered by the dial pad, as identifier and
/// label, in the order of their engines.
pub open spec fn registered_choices_spec(engines: Seq<EngineView>, accounts: Seq<AccountView>) -> Seq<(Seq<char>, Seq<char>)>
    decreases engines.len(),
{
    if engines.len() == 0 {
        Seq::empty()
    } else {
        let rest = registered_choices_spec(engines.drop_last(), accounts);
        if engines.last().registered {
            match account_index(accounts, engines.last().account_id) {
                Some(a) => rest.push((accounts[a].id, label_spec(accounts[a].display_name, accounts[a].username))),
                None => rest,
            }
        } else {
            rest
        }
    }
}

/// The accounts whose engine is registered, in order.
pub open spec fn registered_ids_spec(engines: Seq<EngineView>) -> Seq<Seq<char>>
    decreases engines.len(),
{
    if engines.len() == 0 {
        Seq::empty()
    } else {
        let rest = registered_ids_spec(engines.drop_last());
        if engines.last().registered { rest.push(engines.last().account_id) } else { rest }
    }
}

impl WindowState {
    fn choose_engine(&self, want: &String) -> (r: Option<usize>)
        ensures
            match r {
                Some(k) => chosen_engine(self@.engines, want@) == Some(k as int) && k < self.engines@.len(),
                None => chosen_engine(self@.engines, want@) is None,
            },
    {
        let any = want.as_str().is_empty();
        let mut i: usize = 0;
        while i < self.engines.len()
            invariant
                i <= self.engines@.len(),
                any == (want@.len() == 0),
                chosen_engine(self@.engines, want@) == chosen_from(self@.engines, want@, i as int),
            decreases self.engines@.len() - i,
        {
            if self.engines[i].registered && (any || self.engines[i].account_id == *want) {
                return Some(i);
            }
            i = i + 1;
        }
        None
    }

    /// Calls `number` through the account `account_id` (any registered
    /// account when it is empty) at time `now`.
    pub fn start_call(&mut self, number: &str, account_id: &str, now: i64) -> (actions: Vec<UiAction>)
        ensures
            (final(self)@, actions_view(actions@)) == start_call_result(old(self)@, number@, account_id@, now),
    {
        let want = String::from_str(account_id);
        let mut actions: Vec<UiAction> = Vec::new();
        let k = match self.choose_engine(&want) {
            Some(k) => k,
            None => {
                actions.push(UiAction::Toast {
                    text: text_of("No registered account — configure SIP account first"),
                    timeout: None,
                    copy_button: false,
                });
                assert(actions_view(actions@) =~= start_call_result(old(self)@, number@, account_id@, now).1);
                return actions;
            },
        };
        let id = self.engines[k].account_id.clone();
        self.active_account_id = Some(id.clone());
        self.primary_caller = String::from_str(number);
        self.pending_call = Some(PendingCall {
            direction: Direction::Outgoing,
            number: String::from_str(number),
            started_at: now,
            connected_at: None,
        });
        actions.push(UiAction::SetCaller(String::from_str(number)));
        actions.push(UiAction::SetDuration(text_of("Calling…")));
        actions.push(UiAction::ShowAnswerButton(false));
        actions.push(UiAction::ShowCallScreen(true));
        actions.push(UiAction::StartRinger(RingTone::Ringback));
        actions.push(UiAction::Dial { account_id: id, number: String::from_str(number) });
        assert(actions_view(actions@) =~= start_call_result(old(self)@, number@, account_id@, now).1);
        actions
    }

    /// The account whose engine carries the current call, if that engine
    /// still runs.
    pub fn active_engine(&self) -> (r: Option<String>)
        ensures
            opt_id_view(r) == active_engine_spec(self@),
    {
        match &self.active_account_id {
            Some(id) => {
                if self.find_engine(id).is_some() {
                    Some(id.clone())
                } else {
                    None
                }
            },
            None => None,
        }
    }

    /// The registered accounts the dial pad offers: identifier and label.
    pub fn registered_choices(&self, accounts: &Vec<Account>) -> (r: Vec<(String, String)>)
        ensures
            r@.map_values(|p: (String, String)| (p.0@, p.1@)) == registered_choices_spec(self@.engines, accounts_view(accounts@)),
    {
        let ghost av = accounts_view(accounts@);
        let mut r: Vec<(String, String)> = Vec::new();
        let mut i: usize = 0;
        while i < self.engines.len()
            invariant
                i <= self.engines@.len(),
                av == accounts_view(accounts@),
                r@.map_values(|p: (String, String)| (p.0@, p.1@))
                    == registered_choices_spec(self@.engines.subrange(0, i as int), av),
            decreases self.engines@.len() - i,
        {
            let ghost prev = r@;
            assert(self@.engines.subrange(0, i + 1).drop_last() =~= self@.engines.subrange(0, i as int));
            assert(self@.engines.subrange(0, i + 1).last() == self@.engines[i as int]);
            if self.engines[i].registered {
                match find_account(accounts, &self.engines[i].account_id) {
                    Some(a) => {
                        proof { lemma_account_index_from(av, self@.engines[i as int].account_id, 0); }
                        let pair = (accounts[a].id.clone(), accounts[a].label());
                        r.push(pair);
                        assert(r@.map_values(|p: (String, String)| (p.0@, p.1@))
                            =~= prev.map_values(|p: (String, String)| (p.0@, p.1@)).push((pair.0@, pair.1@)));
                    },
                    None => {},
                }
            }
            i = i + 1;
        }
        assert(self@.engines.subrange(0, self.engines@.len() as int) =~= self@.engines);
        r
    }

    /// The accounts whose engine is registered.
    pub fn registered_ids(&self) -> (r: Vec<String>)
        ensures
            r@.map_values(|s: String| s@) == registered_ids_spec(self@.engines),
    {
        let mut r: Vec<String> = Vec::new();
        let mut i: usize = 0;
        while i < self.engines.len()
            invariant
                i <= self.engines@.len(),
                r@.map_values(|s: String| s@) == registered_ids_spec(self@.engines.subrange(0, i as int)),
            decreases self.engines@.len() - i,
        {
            let ghost prev = r@;
            assert(self@.engines.subrange(0, i + 1).drop_last() =~= self@.engines.subrange(0, i as int));
            assert(self@.engines.subrange(0, i + 1).last() == self@.engines[i as int]);
            if self.engines[i].registered {
                let x = self.engines[i].account_id.clone();
                r.push(x);
                assert(r@.map_values(|s: String| s@) =~= prev.map_values(|s: String| s@).push(x@));
            }
            i = i + 1;
        }
        assert(self@.engines.subrange(0, self.engines@.len() as int) =~= self@.engines);
        r
    }
}

// ── Laws ─────────────────────────────────────────────────────────────────────

/// No account has two engines.
pub open spec fn unique_engines(engines: Seq<EngineView>) -> bool {
    forall|i: int, j: int| #![trigger engines[i], engines[j]]
        0 <= i < j < engines.len() ==> engines[i].account_id != engines[j].account_id
}

proof fn lemma_connect_unique(w: WindowView, a: AccountView, now: i64)
    requires
        unique_engines(w.engines),
    ensures
        unique_engines(connect_state(w, a, now).engines),
{
    lemma_engine_index_from(w.engines, a.id, 0);
    let e2 = connect_state(w, a, now).engines;
    if !(engine_index(w.engines, a.id) is Some || a.server.len() == 0) {
        assert forall|i: int, j: int| 0 <= i < j < e2.len() implies e2[i].account_id != e2[j].account_id by {
            if j == w.engines.len() {
                assert(e2[i] == w.engines[i]);
            } else {
                assert(e2[i] == w.engines[i] && e2[j] == w.engines[j]);
            }
        }
    }
}

proof fn lemma_without(engines: Seq<EngineView>, id: Seq<char>)
    ensures
        forall|k: int| 0 <= k < without(engines, id).len() ==> {
            &&& (#[trigger] without(engines, id)[k]).account_id != id
            &&& exists|m: int| 0 <= m < engines.len() && engines[m] == without(engines, id)[k]
        },
        unique_engines(engines) ==> unique_engines(without(engines, id)),
    decreases engines.len(),
{
    if engines.len() > 0 {
        let init = engines.drop_last();
        let rest = without(init, id);
        let w = without(engines, id);
        lemma_without(init, id);
        assert forall|k: int| 0 <= k < w.len() implies {
            &&& (#[trigger] w[k]).account_id != id
            &&& exists|m: int| 0 <= m < engines.len() && engines[m] == w[k]
        } by {
            if k < rest.len() {
                let m = choose|m: int| 0 <= m < init.len() && init[m] == rest[k];
                assert(engines[m] == w[k]);
            } else {
                assert(engines[engines.len() - 1] == w[k]);
            }
        }
        if unique_engines(engines) {
            assert forall|i: int, j: int| 0 <= i < j < init.len() implies init[i].account_id != init[j].account_id by {
                assert(init[i] == engines[i] && init[j] == engines[j]);
            }
            assert forall|i: int, j: int| 0 <= i < j < w.len() implies w[i].account_id != w[j].account_id by {
                if j >= rest.len() {
                    let m = choose|m: int| 0 <= m < init.len() && init[m] == rest[i];
                    assert(engines[m] == init[m]);
                    assert(w[j] == engines[engines.len() - 1]);
                }
            }
        }
    }
}

proof fn lemma_by_id_unique(w: WindowView, id: Seq<char>, accounts: Seq<AccountView>, now: i64)
    requires
        unique_engines(w.engines),
    ensures
        unique_engines(by_id_state(w, id, accounts, now).engines),
{
    lemma_without(w.engines, id);
    let w1 = WindowView { engines: without(w.engines, id), ..w };
    match account_index(accounts, id) {
        Some(k) => lemma_connect_unique(w1, accounts[k], now),
        None => {},
    }
}

proof fn lemma_connect_ids_unique(w: WindowView, ids: Seq<Seq<char>>, accounts: Seq<AccountView>, now: i64)
    requires
        unique_engines(w.engines),
    ensures
        unique_engines(connect_ids(w, ids, accounts, now).0.engines),
    decreases ids.len(),
{
    if ids.len() > 0 {
        lemma_connect_ids_unique(w, ids.drop_last(), accounts, now);
        let w1 = connect_ids(w, ids.drop_last(), accounts, now).0;
        match account_index(accounts, ids.last()) {
            Some(k) => lemma_connect_unique(w1, accounts[k], now),
            None => {},
        }
    }
}

proof fn lemma_reconnect_ids_unique(w: WindowView, ids: Seq<Seq<char>>, accounts: Seq<AccountView>, now: i64)
    requires
        unique_engines(w.engines),
    ensures
        unique_engines(reconnect_ids(w, ids, accounts, now).0.engines),
    decreases ids.len(),
{
    if ids.len() > 0 {
        lemma_reconnect_ids_unique(w, ids.drop_last(), accounts, now);
        let w1 = reconnect_ids(w, ids.drop_last(), accounts, now).0;
        lemma_by_id_unique(w1, ids.last(), accounts, now);
    }
}

proof fn lemma_startup_connect_unique(w: WindowView, accounts: Seq<AccountView>, now: i64)
    requires
        unique_engines(w.engines),
    ensures
        unique_engines(startup_connect(w, accounts, now).0.engines),
    decreases accounts.len(),
{
    if accounts.len() > 0 {
        lemma_startup_connect_unique(w, accounts.drop_last(), now);
        let w1 = startup_connect(w, accounts.drop_last(), now).0;
        if accounts.last().register_on_startup {
            lemma_connect_unique(w1, accounts.last(), now);
        }
    }
}

proof fn lemma_set_registered_ids(engines: Seq<EngineView>, id: Seq<char>, registered: bool, ok_at: Option<i64>)
    ensures
        set_registered(engines, id, registered, ok_at).len() == engines.len(),
        forall|i: int| 0 <= i < engines.len()
            ==> (#[trigger] set_registered(engines, id, registered, ok_at)[i]).account_id == engines[i].account_id,
{
    lemma_engine_index_from(engines, id, 0);
}

/// Every operation of the window keeps at most one engine per account:
/// SIP events, connecting, disconnecting and reconnecting accounts, the
/// keep-alive tick, network changes, startup and placing a call.
pub proof fn lemma_one_engine_per_account(
    w: WindowView,
    id: Seq<char>,
    ev: SipEventView,
    now: i64,
    a: AccountView,
    accounts: Seq<AccountView>,
    available: bool,
    number: Seq<char>,
)
    requires
        unique_engines(w.engines),
    ensures
        unique_engines(event_state(w, id, ev, now).engines),
        unique_engines(connect_state(w, a, now).engines),
        unique_engines(without(w.engines, id)),
        unique_engines(by_id_state(w, id, accounts, now).engines),
        unique_engines(reconnect_all_result(w, accounts, now).0.engines),
        unique_engines(keepalive_result(w, now, accounts).0.engines),
        unique_engines(network_result(w, available, now, accounts).0.engines),
        unique_engines(startup_result(w, accounts, now).0.engines),
        unique_engines(start_call_result(w, number, id, now).0.engines),
{
    let e = w.engines;
    match ev {
        SipEventView::Registered => {
            lemma_set_registered_ids(e, id, true, Some(now));
            let e2 = set_registered(e, id, true, Some(now));
            assert forall|i: int, j: int| 0 <= i < j < e2.len() implies e2[i].account_id != e2[j].account_id by {
                assert(e2[i].account_id == e[i].account_id && e2[j].account_id == e[j].account_id);
            }
        },
        SipEventView::RegistrationFailed(_) => {
            lemma_set_registered_ids(e, id, false, None);
            let e2 = set_registered(e, id, false, None);
            assert forall|i: int, j: int| 0 <= i < j < e2.len() implies e2[i].account_id != e2[j].account_id by {
                assert(e2[i].account_id == e[i].account_id && e2[j].account_id == e[j].account_id);
            }
        },
        _ => {},
    }
    lemma_connect_unique(w, a, now);
    lemma_without(e, id);
    lemma_by_id_unique(w, id, accounts, now);
    let empty = WindowView { engines: Seq::empty(), ..w };
    lemma_connect_ids_unique(empty, ids_of(e), accounts, now);
    lemma_reconnect_ids_unique(w, stale_ids(e, now), accounts, now);
    lemma_startup_connect_unique(w, accounts, now);
}

/// While a call is in progress (its audio runs, or an account handles it),
/// no engine is torn down: a network change does nothing, and the
/// keep-alive tick only refreshes the registrations.
pub proof fn lemma_call_keeps_engines(w: WindowView, available: bool, now: i64, accounts: Seq<AccountView>)
    requires
        w.audio_active || w.active_account_id is Some,
    ensures
        network_result(w, available, now, accounts) == (w, Seq::<ActionView>::empty()),
        keepalive_result(w, now, accounts).0 == w,
        keepalive_result(w, now, accounts).1
            == w.engines.map_values(|e: EngineView| ActionView::Reregister(e.account_id)),
{
}

/// When a call ends, fails or is transferred away, the window lets go of
/// it: no account handles a call, no audio runs, and the call's record is
/// the newest in the history; the engines stay as they are.
pub proof fn lemma_call_end_records(w: WindowView, id: Seq<char>, ev: SipEventView, now: i64)
    requires
        ev is CallEnded || ev is CallFailed || ev is TransferOk,
        w.pending_call is Some,
    ensures
        event_state(w, id, ev, now).active_account_id is None,
        event_state(w, id, ev, now).pending_call is None,
        !event_state(w, id, ev, now).audio_active,
        !event_state(w, id, ev, now).consult_active,
        event_state(w, id, ev, now).engines == w.engines,
        event_state(w, id, ev, now).call_log[0] == finished_record(w.pending_call->0, now),
        event_state(w, id, ev, now).call_log.len()
            == (if w.call_log.len() + 1 > MAX_RECORDS { MAX_RECORDS as int } else { w.call_log.len() + 1int }),
        forall|i: int| 1 <= i < event_state(w, id, ev, now).call_log.len()
            ==> #[trigger] event_state(w, id, ev, now).call_log[i] == w.call_log[i - 1],
{
    lemma_push_newest_first(w.call_log, finished_record(w.pending_call->0, now));
}

proof fn lemma_chosen_from(engines: Seq<EngineView>, want: Seq<char>, i: int)
    requires
        0 <= i,
    ensures
        match chosen_from(engines, want, i) {
            Some(k) => i <= k < engines.len() && engines[k].registered
                && (want.len() == 0 || engines[k].account_id == want)
                && forall|m: int| i <= m < k
                    ==> !((#[trigger] engines[m]).registered && (want.len() == 0 || engines[m].account_id == want)),
            None => forall|m: int| i <= m < engines.len()
                ==> !((#[trigger] engines[m]).registered && (want.len() == 0 || engines[m].account_id == want)),
        },
    decreases engines.len() - i,
{
    if i < engines.len() && !(engines[i].registered && (want.len() == 0 || engines[i].account_id == want)) {
        lemma_chosen_from(engines, want, i + 1);
    }
}

/// A call goes out only through a registered engine: that of the requested
/// account when one is named, else any account's. It is the first such
/// engine: none before it qualifies. When there is none, the user is told
/// and the window does not change.
pub proof fn lemma_calls_use_registered_engines(w: WindowView, number: Seq<char>, want: Seq<char>, now: i64)
    ensures
        match chosen_engine(w.engines, want) {
            Some(k) => {
                &&& 0 <= k < w.engines.len()
                &&& w.engines[k].registered
                &&& want.len() == 0 || w.engines[k].account_id == want
                &&& forall|m: int| 0 <= m < k
                    ==> !((#[trigger] w.engines[m]).registered && (want.len() == 0 || w.engines[m].account_id == want))
                &&& start_call_result(w, number, want, now).0.active_account_id == Some(w.engines[k].account_id)
                &&& start_call_result(w, number, want, now).1.last()
                    == ActionView::Dial { account_id: w.engines[k].account_id, number }
            },
            None => {
                &&& forall|m: int| 0 <= m < w.engines.len()
                    ==> !((#[trigger] w.engines[m]).registered && (want.len() == 0 || w.engines[m].account_id == want))
                &&& start_call_result(w, number, want, now).0 == w
            },
        },
{
    lemma_chosen_from(w.engines, want, 0);
}

// ── Mute ─────────────────────────────────────────────────────────────────────

/// What the mute button does: it silences (or restores) the microphone of
/// the running audio sessions; with none running there is nothing to mute.
pub open spec fn mute_actions(w: WindowView, muted: bool) -> Seq<ActionView> {
    if w.audio_active || w.consult_active {
        seq![ActionView::MuteAudio(muted)]
    } else {
        Seq::empty()
    }
}

impl WindowState {
    /// The mute button was toggled to `muted`.
    pub fn mute_toggled(&self, muted: bool) -> (actions: Vec<UiAction>)
        ensures
            actions_view(actions@) == mute_actions(self@, muted),
    {
        let mut actions: Vec<UiAction> = Vec::new();
        if self.audio_active || self.consult_active {
            actions.push(UiAction::MuteAudio(muted));
        }
        assert(actions_view(actions@) =~= mute_actions(self@, muted));
        actions
    }
}

// ── Laws of incoming calls and reconnection ─────────────────────────────────

/// An incoming call is handled by the account whose engine reported it:
/// that account becomes the active one (so answering and hanging up go
/// through its engine), and the call is tracked as an incoming call from
/// the caller, started now and not yet connected.
pub proof fn lemma_incoming_call_handled_by_reporter(w: WindowView, id: Seq<char>, from: Seq<char>, now: i64)
    ensures
        event_state(w, id, SipEventView::IncomingCall { from }, now).active_account_id == Some(id),
        event_state(w, id, SipEventView::IncomingCall { from }, now).pending_call == Some(PendingView {
            direction: Direction::Incoming,
            number: from,
            started_at: now,
            connected_at: None,
        }),
        event_state(w, id, SipEventView::IncomingCall { from }, now).primary_caller == from,
        event_state(w, id, SipEventView::IncomingCall { from }, now).engines == w.engines,
        active_engine_spec(event_state(w, id, SipEventView::IncomingCall { from }, now))
            == (if engine_index(w.engines, id) is Some { Some(id) } else { None::<Seq<char>> }),
{
}

proof fn lemma_contains_in_concat(a: Seq<ActionView>, b: Seq<ActionView>, x: ActionView)
    requires
        a.contains(x),
    ensures
        (a + b).contains(x),
{
    let i = choose|i: int| 0 <= i < a.len() && a[i] == x;
    assert((a + b)[i] == x);
}

/// Every engine started while connecting `ids` one after the other is
/// announced by a `StartEngine` of its account; every one of `ids` that
/// names a configured account with a server ends with an engine.
proof fn lemma_connect_ids_starts(w: WindowView, ids: Seq<Seq<char>>, accounts: Seq<AccountView>, now: i64)
    requires
        w.engines.len() == 0,
    ensures
        forall|j: int| 0 <= j < connect_ids(w, ids, accounts, now).0.engines.len() ==>
            (match account_index(accounts, (#[trigger] connect_ids(w, ids, accounts, now).0.engines[j]).account_id) {
                Some(k) => connect_ids(w, ids, accounts, now).1.contains(ActionView::StartEngine(accounts[k])),
                None => false,
            }),
        forall|i: int| 0 <= i < ids.len() ==>
            (match account_index(accounts, #[trigger] ids[i]) {
                Some(k) => accounts[k].server.len() > 0 ==> {
                    &&& exists|j: int| 0 <= j < connect_ids(w, ids, accounts, now).0.engines.len()
                        && (#[trigger] connect_ids(w, ids, accounts, now).0.engines[j]).account_id == ids[i]
                    &&& connect_ids(w, ids, accounts, now).1.contains(ActionView::StartEngine(accounts[k]))
                },
                None => true,
            }),
    decreases ids.len(),
{
    if ids.len() > 0 {
        let init = ids.drop_last();
        let last = ids.last();
        lemma_connect_ids_starts(w, init, accounts, now);
        let (w1, a1) = connect_ids(w, init, accounts, now);
        let (w2, a2) = connect_ids(w, ids, accounts, now);
        match account_index(accounts, last) {
            Some(k) => {
                lemma_account_index_from(accounts, last, 0);
                let acc = accounts[k];
                assert(acc.id == last);
                let extra = connect_actions(w1, acc);
                assert(a2 == a1 + extra);
                lemma_engine_index_from(w1.engines, acc.id, 0);
                let pushed = !(engine_index(w1.engines, acc.id) is Some || acc.server.len() == 0);
                if pushed {
                    assert(extra[0] == ActionView::StartEngine(acc));
                    assert(a2[a1.len() as int] == ActionView::StartEngine(acc));
                    assert(a2.contains(ActionView::StartEngine(acc)));
                }
                assert forall|j: int| 0 <= j < w2.engines.len() implies
                    (match account_index(accounts, (#[trigger] w2.engines[j]).account_id) {
                        Some(k2) => a2.contains(ActionView::StartEngine(accounts[k2])),
                        None => false,
                    }) by {
                    if j < w1.engines.len() {
                        assert(w2.engines[j] == w1.engines[j]);
                        match account_index(accounts, w1.engines[j].account_id) {
                            Some(k2) => lemma_contains_in_concat(a1, extra, ActionView::StartEngine(accounts[k2])),
                            None => {},
                        }
                    } else {
                        assert(w2.engines[j].account_id == last);
                    }
                }
                assert forall|i: int| 0 <= i < ids.len() implies
                    (match account_index(accounts, #[trigger] ids[i]) {
                        Some(k2) => accounts[k2].server.len() > 0 ==> {
                            &&& exists|j: int| 0 <= j < w2.engines.len()
                                && (#[trigger] w2.engines[j]).account_id == ids[i]
                            &&& a2.contains(ActionView::StartEngine(accounts[k2]))
                        },
                        None => true,
                    }) by {
                    if i < init.len() {
                        assert(ids[i] == init[i]);
                        match account_index(accounts, ids[i]) {
                            Some(k2) => {
                                if accounts[k2].server.len() > 0 {
                                    let j = choose|j: int| 0 <= j < w1.engines.len()
                                        && (#[trigger] w1.engines[j]).account_id == init[i];
                                    assert(w2.engines[j] == w1.engines[j]);
                                    lemma_contains_in_concat(a1, extra, ActionView::StartEngine(accounts[k2]));
                                }
                            },
                            None => {},
                        }
                    } else {
                        assert(ids[i] == last);
                        if acc.server.len() > 0 {
                            if pushed {
                                assert(w2.engines[w1.engines.len() as int].account_id == last);
                            } else {
                                let j = engine_index(w1.engines, acc.id)->0;
                                assert(w1.engines[j].account_id == last);
                                assert(w2.engines[j] == w1.engines[j]);
                                lemma_contains_in_concat(a1, extra, ActionView::StartEngine(accounts[k]));
                            }
                        }
                    }
                }
            },
            None => {
                assert forall|i: int| 0 <= i < ids.len() implies
                    (match account_index(accounts, #[trigger] ids[i]) {
                        Some(k2) => accounts[k2].server.len() > 0 ==> {
                            &&& exists|j: int| 0 <= j < w2.engines.len()
                                && (#[trigger] w2.engines[j]).account_id == ids[i]
                            &&& a2.contains(ActionView::StartEngine(accounts[k2]))
                        },
                        None => true,
                    }) by {
                    if i < init.len() {
                        assert(ids[i] == init[i]);
                    }
                }
            },
        }
    }
}

/// Reconnecting restarts every engine that ran: for each engine before,
/// whose account is still configured and names a server, an engine of that
/// account runs afterwards and a `StartEngine` of the account is issued,
/// whether or not the account registers on startup. A network change that
/// reconnects does exactly this.
pub proof fn lemma_reconnect_restarts_every_engine(
    w: WindowView,
    accounts: Seq<AccountView>,
    now: i64,
    available: bool,
)
    ensures
        forall|i: int| 0 <= i < w.engines.len() ==>
            (match account_index(accounts, (#[trigger] w.engines[i]).account_id) {
                Some(k) => accounts[k].server.len() > 0 ==> {
                    &&& exists|j: int| 0 <= j < reconnect_all_result(w, accounts, now).0.engines.len()
                        && (#[trigger] reconnect_all_result(w, accounts, now).0.engines[j]).account_id
                            == w.engines[i].account_id
                    &&& reconnect_all_result(w, accounts, now).1.contains(ActionView::StartEngine(accounts[k]))
                },
                None => true,
            }),
        (available && !w.audio_active && w.active_account_id is None && w.engines.len() > 0
            && !recently_registered(w.engines, now))
            ==> network_result(w, available, now, accounts) == reconnect_all_result(w, accounts, now),
{
    let empty = WindowView { engines: Seq::empty(), ..w };
    let ids = ids_of(w.engines);
    lemma_connect_ids_starts(empty, ids, accounts, now);
    let (w1, a1) = connect_ids(empty, ids, accounts, now);
    let r = reconnect_all_result(w, accounts, now);
    assert(r.1 == seq![ActionView::DropAllEngines] + a1);
    assert forall|i: int| 0 <= i < w.engines.len() implies
        (match account_index(accounts, (#[trigger] w.engines[i]).account_id) {
            Some(k) => accounts[k].server.len() > 0 ==> {
                &&& exists|j: int| 0 <= j < r.0.engines.len()
                    && (#[trigger] r.0.engines[j]).account_id == w.engines[i].account_id
                &&& r.1.contains(ActionView::StartEngine(accounts[k]))
            },
            None => true,
        }) by {
        assert(ids[i] == w.engines[i].account_id);
        match account_index(accounts, ids[i]) {
            Some(k) => {
                if accounts[k].server.len() > 0 {
                    let x = ActionView::StartEngine(accounts[k]);
                    let p = choose|p: int| 0 <= p < a1.len() && a1[p] == x;
                    assert(r.1[p + 1] == x);
                }
            },
            None => {},
        }
    }
}

} // verus!
