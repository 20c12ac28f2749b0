//! The application: its state, and what each message does to it.
pub mod backup;
pub mod connection;
pub mod credential_laws;
pub mod editor;
pub mod host_laws;
pub mod hosts;
pub mod invariants;
pub mod laws;
pub mod message;
pub mod reply;
pub mod sessions;
pub mod settings;
pub mod settings_laws;
pub mod sync;
pub mod sync_laws;
pub mod tab_laws;
pub mod tabs;
pub mod terminal;
pub mod terminal_laws;
pub mod update;
pub mod vault_laws;
pub mod view;

use vstd::prelude::*;

use crate::app::message::{Command, CommandModel};
use crate::screens::s0_connection;
use crate::screens::s3_main;
use crate::screens::s3_main::{HostItem, HostModel};
use crate::screens::s4_credential;
use crate::screens::s5_settings;
use crate::screens::s_terminal::{SessionModel, TerminalSession};
use crate::screens::{Screen, ScreenModel, Tab, TabModel};
use crate::screens;
use crate::strings;
use crate::term::primitive::{AppearanceModel, TerminalAppearance};
use crate::text;
use crate::text::{I18n, Lang, SpanModel, Text};

verus! {

/// How the vault and its remote copy stand.
#[derive(Debug, Clone, Copy, PartialEq, Eq, Structural)]
pub enum SyncState {
    Unknown,
    Synced,
    Syncing,
    Error,
    NeedsAttention,
    NotConfigured,
}

impl Default for SyncState {
    fn default() -> (res: Self)
        ensures
            res == SyncState::Unknown,
    {
        SyncState::Unknown
    }
}

impl SyncState {
    pub open spec fn symbol_of(self) -> Seq<char> {
        match self {
            SyncState::Unknown => "—"@,
            SyncState::Synced => "✓"@,
            SyncState::Syncing => "⟳"@,
            SyncState::Error => "✗"@,
            SyncState::NeedsAttention => "▲"@,
            SyncState::NotConfigured => "—"@,
        }
    }

    pub open spec fn key(self) -> Seq<char> {
        match self {
            SyncState::Unknown => "sync_state_unknown"@,
            SyncState::Synced => "sync_state_synced"@,
            SyncState::Syncing => "sync_state_syncing"@,
            SyncState::Error => "sync_state_error"@,
            SyncState::NeedsAttention => "sync_state_needs_attention"@,
            SyncState::NotConfigured => "sync_state_not_configured"@,
        }
    }

    /// The symbol on the button for syncing.
    pub fn symbol(&self) -> (res: &'static str)
        ensures
            res@ == self.symbol_of(),
    {
        match self {
            SyncState::Unknown => "—",
            SyncState::Synced => "✓",
            SyncState::Syncing => "⟳",
            SyncState::Error => "✗",
            SyncState::NeedsAttention => "▲",
            SyncState::NotConfigured => "—",
        }
    }

    pub fn label(&self, i18n: &I18n) -> (res: Text)
        ensures
            res@ == text::tr(i18n.lang, self.key()),
    {
        match self {
            SyncState::Unknown => i18n.tr("sync_state_unknown"),
            SyncState::Synced => i18n.tr("sync_state_synced"),
            SyncState::Syncing => i18n.tr("sync_state_syncing"),
            SyncState::Error => i18n.tr("sync_state_error"),
            SyncState::NeedsAttention => i18n.tr("sync_state_needs_attention"),
            SyncState::NotConfigured => i18n.tr("sync_state_not_configured"),
        }
    }
}

/// The terminal of a tab. The tab keeps its id while its session changes.
#[derive(Debug)]
pub struct TabSession {
    pub tab_id: String,
    pub session: TerminalSession,
}

#[verifier::ext_equal]
pub struct SlotModel {
    pub tab_id: Seq<char>,
    pub session: SessionModel,
}

impl View for TabSession {
    type V = SlotModel;

    open spec fn view(&self) -> SlotModel {
        SlotModel { tab_id: self.tab_id@, session: self.session@ }
    }
}

/// The terminals of a list.
pub open spec fn slot_models(list: Seq<TabSession>) -> Seq<SlotModel> {
    Seq::new(list.len(), |i: int| list[i]@)
}

/// The application.
#[derive(Debug)]
pub struct VidaApp {
    /// There is a connection to the daemon.
    pub connected: bool,
    pub screen: Screen,
    pub hosts: Vec<HostItem>,
    pub tabs: Vec<Tab>,
    pub active_tab_id: String,
    pub editor_state: Option<s4_credential::State>,
    pub settings_state: Option<s5_settings::State>,
    pub i18n: I18n,
    pub show_connect_panel: bool,
    pub connect_panel_search: String,
    pub recent_host_ids: Vec<String>,
    pub sync_state: SyncState,
    /// Only the timer with this token hides a credential.
    pub cred_hide_token: u64,
    /// The token of the timer that may empty the clipboard, and what it wrote.
    pub clipboard_guard: Option<(u64, String)>,
    pub clipboard_token: u64,
    pub terminal_sessions: Vec<TabSession>,
    pub terminal_opening: bool,
    pub terminal_error: Option<Text>,
    pub next_terminal_number: u32,
    /// Until this time, in milliseconds, no further reconnect begins.
    pub terminal_reconnect_cooldown: Option<u64>,
    pub terminal_appearance: TerminalAppearance,
    /// The terminals are to be taken up again once the vault is open.
    pub terminal_restore_pending: bool,
    pub terminal_reconnect_in_flight: bool,
}

/// What the application holds.
#[verifier::ext_equal]
pub struct AppModel {
    pub connected: bool,
    pub screen: ScreenModel,
    pub hosts: Seq<HostModel>,
    pub tabs: Seq<TabModel>,
    pub active_tab_id: Seq<char>,
    pub editor_state: Option<s4_credential::StateModel>,
    pub settings_state: Option<s5_settings::StateModel>,
    pub lang: Lang,
    pub show_connect_panel: bool,
    pub connect_panel_search: Seq<char>,
    pub recent_host_ids: Seq<Seq<char>>,
    pub sync_state: SyncState,
    pub cred_hide_token: u64,
    pub clipboard_guard: Option<(u64, Seq<char>)>,
    pub clipboard_token: u64,
    pub terminal_sessions: Seq<SlotModel>,
    pub terminal_opening: bool,
    pub terminal_error: Option<Seq<SpanModel>>,
    pub next_terminal_number: u32,
    pub terminal_reconnect_cooldown: Option<u64>,
    pub terminal_appearance: AppearanceModel,
    pub terminal_restore_pending: bool,
    pub terminal_reconnect_in_flight: bool,
}

/// The editor, where one is open.
pub open spec fn editor_model(s: Option<s4_credential::State>) -> Option<s4_credential::StateModel> {
    match s {
        Some(state) => Some(state@),
        None => None,
    }
}

/// The settings, where they are loaded.
pub open spec fn settings_model(s: Option<s5_settings::State>) -> Option<s5_settings::StateModel> {
    match s {
        Some(state) => Some(state@),
        None => None,
    }
}

/// The guard of the clipboard.
pub open spec fn guard_model(g: Option<(u64, String)>) -> Option<(u64, Seq<char>)> {
    match g {
        Some((token, content)) => Some((token, content@)),
        None => None,
    }
}

impl View for VidaApp {
    type V = AppModel;

    open spec fn view(&self) -> AppModel {
        AppModel {
            connected: self.connected,
            screen: self.screen@,
            hosts: s3_main::host_models(self.hosts@),
            tabs: screens::tab_models(self.tabs@),
            active_tab_id: self.active_tab_id@,
            editor_state: editor_model(self.editor_state),
            settings_state: settings_model(self.settings_state),
            lang: self.i18n.lang,
            show_connect_panel: self.show_connect_panel,
            connect_panel_search: self.connect_panel_search@,
            recent_host_ids: strings::texts(self.recent_host_ids@),
            sync_state: self.sync_state,
            cred_hide_token: self.cred_hide_token,
            clipboard_guard: guard_model(self.clipboard_guard),
            clipboard_token: self.clipboard_token,
            terminal_sessions: slot_models(self.terminal_sessions@),
            terminal_opening: self.terminal_opening,
            terminal_error: text::opt_spans(self.terminal_error),
            next_terminal_number: self.next_terminal_number,
            terminal_reconnect_cooldown: self.terminal_reconnect_cooldown,
            terminal_appearance: self.terminal_appearance@,
            terminal_restore_pending: self.terminal_restore_pending,
            terminal_reconnect_in_flight: self.terminal_reconnect_in_flight,
        }
    }
}

impl AppModel {
    /// Each terminal has a tab id of its own and a grid with all its cells.
    pub open spec fn wf(self) -> bool {
        &&& forall|i: int|
            0 <= i < self.terminal_sessions.len() ==> (
            #[trigger] self.terminal_sessions[i]).session.grid.wf()
        &&& forall|i: int, j: int|
            0 <= i < j < self.terminal_sessions.len() ==> (
            #[trigger] self.terminal_sessions[i]).tab_id != (
            #[trigger] self.terminal_sessions[j]).tab_id
    }

    /// The application as it starts.
    pub open spec fn started(lang: Lang) -> AppModel {
        AppModel {
            connected: false,
            screen: ScreenModel::ConnectionFailure(text::tr(lang, "connection_connecting"@)),
            hosts: Seq::empty(),
            tabs: Seq::empty(),
            active_tab_id: Seq::empty(),
            editor_state: None,
            settings_state: None,
            lang,
            show_connect_panel: false,
            connect_panel_search: Seq::empty(),
            recent_host_ids: Seq::empty(),
            sync_state: SyncState::Unknown,
            cred_hide_token: 0,
            clipboard_guard: None,
            clipboard_token: 0,
            terminal_sessions: Seq::empty(),
            terminal_opening: false,
            terminal_error: None,
            next_terminal_number: 1,
            terminal_reconnect_cooldown: None,
            terminal_appearance: AppearanceModel::standard(),
            terminal_restore_pending: false,
            terminal_reconnect_in_flight: false,
        }
    }
}

/// The application as it starts, and the connection that it asks for.
pub fn new(lang: Lang) -> (res: (VidaApp, Vec<Command>))
    ensures
        res.0@ == AppModel::started(lang),
        res.0@.wf(),
        message::command_models(res.1@) == seq![
            CommandModel::Connect { delay_seconds: 0, restoring: false },
        ],
{
    let i18n = I18n::new(lang);
    let app = VidaApp {
        connected: false,
        screen: Screen::ConnectionFailure(s0_connection::State::new(i18n.tr("connection_connecting"))),
        hosts: Vec::new(),
        tabs: Vec::new(),
        active_tab_id: String::new(),
        editor_state: None,
        settings_state: None,
        i18n,
        show_connect_panel: false,
        connect_panel_search: String::new(),
        recent_host_ids: Vec::new(),
        sync_state: SyncState::Unknown,
        cred_hide_token: 0,
        clipboard_guard: None,
        clipboard_token: 0,
        terminal_sessions: Vec::new(),
        terminal_opening: false,
        terminal_error: None,
        next_terminal_number: 1,
        terminal_reconnect_cooldown: None,
        terminal_appearance: TerminalAppearance::default(),
        terminal_restore_pending: false,
        terminal_reconnect_in_flight: false,
    };
    proof {
        assert(app@ =~= AppModel::started(lang));
    }
    (app, message::one(Command::Connect { delay_seconds: 0, restoring: false }))
}

/// Each state of syncing shows by a symbol of its own; where nothing is known
/// and where nothing is set up, by a dash.
pub proof fn law_symbols_of_syncing()
    ensures
        SyncState::Synced.symbol_of() == "✓"@,
        SyncState::Syncing.symbol_of() == "⟳"@,
        SyncState::Error.symbol_of() == "✗"@,
        SyncState::NeedsAttention.symbol_of() == "▲"@,
        SyncState::Unknown.symbol_of() == "—"@,
        SyncState::NotConfigured.symbol_of() == "—"@,
        SyncState::Synced.key() == "sync_state_synced"@,
        SyncState::Syncing.key() == "sync_state_syncing"@,
        SyncState::Error.key() == "sync_state_error"@,
        SyncState::NeedsAttention.key() == "sync_state_needs_attention"@,
        SyncState::Unknown.key() == "sync_state_unknown"@,
        SyncState::NotConfigured.key() == "sync_state_not_configured"@,
{
}

} // verus!
