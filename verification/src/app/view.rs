//! What the window shows, and what the application listens to.
use vstd::prelude::*;

use crate::app::message::AppMessage;
use crate::app::tabs;
use crate::app::{AppModel, SlotModel, VidaApp};
use crate::model;
use crate::screens::s3_main;
use crate::screens::s3_main::{ConnectPanel, TabBar};
use crate::screens::{Screen, TabKind, TabKindModel, TabModel};
use crate::term::keys::{Key, Modifiers, Named, Platform};
use crate::text;
use crate::text::{SpanModel, Text};

verus! {

// ---------------------------------------------------------------------------
// The window
// ---------------------------------------------------------------------------

/// What the window shows below the bar of tabs.
#[derive(Debug)]
pub enum Content {
    /// The state of the screen.
    Screen,
    /// The details of a host.
    Host(String),
    /// The terminal at a place in the list of terminals.
    Terminal(usize),
    Editor,
    Settings,
    /// A line in place of what is not there yet.
    Line(Text),
    /// There is no tab to show.
    NoTab,
}

#[verifier::ext_equal]
pub enum ContentModel {
    Screen,
    Host(Seq<char>),
    Terminal(int),
    Editor,
    Settings,
    Line(Seq<SpanModel>),
    NoTab,
}

impl View for Content {
    type V = ContentModel;

    open spec fn view(&self) -> ContentModel {
        match self {
            Content::Screen => ContentModel::Screen,
            Content::Host(id) => ContentModel::Host(id@),
            Content::Terminal(i) => ContentModel::Terminal(*i as int),
            Content::Editor => ContentModel::Editor,
            Content::Settings => ContentModel::Settings,
            Content::Line(line) => ContentModel::Line(line@),
            Content::NoTab => ContentModel::NoTab,
        }
    }
}

/// The window.
#[derive(Debug)]
pub struct Page {
    pub bar: Option<TabBar>,
    /// What went wrong with a terminal.
    pub error: Option<Text>,
    pub content: Content,
    /// The panel for connecting, over the rest.
    pub panel: Option<ConnectPanel>,
}

impl AppModel {
    /// What the active tab shows.
    pub open spec fn tab_content(self) -> ContentModel {
        match tabs::tab_at(self.tabs, self.active_tab_id) {
            None => ContentModel::NoTab,
            Some(i) => match self.tabs[i].kind {
                TabKindModel::Host { host_id } => ContentModel::Host(host_id),
                TabKindModel::Terminal { .. } => match self.active_slot() {
                    Some(slot) => ContentModel::Terminal(slot),
                    None => ContentModel::Line(text::tr(self.lang, "terminal_state_missing"@)),
                },
                TabKindModel::Settings => if self.settings_state is Some {
                    ContentModel::Settings
                } else {
                    ContentModel::Line(text::tr(self.lang, "main_settings_loading"@))
                },
                _ => if self.editor_state is Some {
                    ContentModel::Editor
                } else {
                    ContentModel::Line(text::tr(self.lang, "main_editor_loading"@))
                },
            },
        }
    }

    /// Before the vault is open, the screen fills the window.
    pub open spec fn fills_window(self) -> bool {
        self.screen is ConnectionFailure || self.screen is Setup || self.screen is Unlock
    }

    /// The page shows the application: the screen alone before the vault is
    /// open; the active tab on the main screen, with the last error of a
    /// terminal and the panel where it is open; and the other screens below the
    /// bar of tabs.
    pub open spec fn shown_by(self, page: Page) -> bool {
        let main = self.screen is Main;
        let panel = main && self.show_connect_panel;
        &&& page.bar is Some <==> !self.fills_window()
        &&& page.bar matches Some(bar) ==> s3_main::shows_tabs(
            bar,
            self.tabs,
            self.active_tab_id,
            panel,
            0,
            self.sync_state.symbol_of(),
        )
        &&& text::opt_spans(page.error) == (if main {
            self.terminal_error
        } else {
            None
        })
        &&& page.content@ == (if main {
            self.tab_content()
        } else {
            ContentModel::Screen
        })
        &&& page.panel is Some <==> panel
        &&& page.panel matches Some(p) ==> {
            &&& s3_main::panel_models(p.recent@) == s3_main::recent_hosts(
                self.hosts,
                self.recent_host_ids,
            )
            &&& s3_main::panel_models(p.hosts@) == s3_main::found_hosts(
                self.hosts,
                self.connect_panel_search,
            )
        }
    }
}

impl VidaApp {
    fn tab_content(&self) -> (res: Content)
        ensures
            res@ == self@.tab_content(),
    {
        let i: usize = match tabs::find_tab(&self.tabs, self.active_tab_id.as_str()) {
            Some(i) => i,
            None => return Content::NoTab,
        };
        proof {
            assert(self@.tabs[i as int] == self.tabs@[i as int]@);
        }
        match &self.tabs[i].kind {
            TabKind::Host { host_id } => Content::Host(host_id.clone()),
            TabKind::Terminal { .. } => match tabs::find_slot(
                &self.terminal_sessions,
                self.active_tab_id.as_str(),
            ) {
                Some(slot) => Content::Terminal(slot),
                None => Content::Line(self.i18n.tr("terminal_state_missing")),
            },
            TabKind::Settings => if self.settings_state.is_some() {
                Content::Settings
            } else {
                Content::Line(self.i18n.tr("main_settings_loading"))
            },
            TabKind::AddHost | TabKind::EditHost { .. } => if self.editor_state.is_some() {
                Content::Editor
            } else {
                Content::Line(self.i18n.tr("main_editor_loading"))
            },
        }
    }

    /// What the window shows.
    pub fn shown(&self) -> (page: Page)
        ensures
            self@.shown_by(page),
    {
        match &self.screen {
            Screen::ConnectionFailure(_) | Screen::Setup(_) | Screen::Unlock(_) => Page {
                bar: None,
                error: None,
                content: Content::Screen,
                panel: None,
            },
            Screen::Main(_) => {
                let panel = if self.show_connect_panel {
                    Some(
                        s3_main::State::view_connect_panel(
                            &self.hosts,
                            &self.recent_host_ids,
                            self.connect_panel_search.as_str(),
                        ),
                    )
                } else {
                    None
                };
                Page {
                    bar: Some(
                        s3_main::State::view_tab_bar(
                            &self.tabs,
                            self.active_tab_id.as_str(),
                            self.show_connect_panel,
                            0,
                            self.sync_state.symbol(),
                        ),
                    ),
                    error: text::clone_opt(&self.terminal_error),
                    content: self.tab_content(),
                    panel,
                }
            },
            _ => Page {
                bar: Some(
                    s3_main::State::view_tab_bar(
                        &self.tabs,
                        self.active_tab_id.as_str(),
                        false,
                        0,
                        self.sync_state.symbol(),
                    ),
                ),
                error: None,
                content: Content::Screen,
                panel: None,
            },
        }
    }
}

// ---------------------------------------------------------------------------
// Subscriptions
// ---------------------------------------------------------------------------

/// What the application listens to.
#[derive(Debug)]
pub struct Subscriptions {
    /// The key that moves the focus in the editor.
    pub editor_keys: bool,
    /// The tab and the session of each stream.
    pub streams: Vec<(String, String)>,
    /// The timer of the cursor.
    pub blink: bool,
}

/// The tab and the session of a stream.
pub open spec fn stream_model(s: (String, String)) -> (Seq<char>, Seq<char>) {
    (s.0@, s.1@)
}

impl AppModel {
    /// The tab of an editor is active.
    pub open spec fn editing(self) -> bool {
        match tabs::tab_at(self.tabs, self.active_tab_id) {
            Some(i) => self.tabs[i].kind is AddHost || self.tabs[i].kind is EditHost,
            None => false,
        }
    }

    /// The application listens: to the keys of the editor while one is active;
    /// with a connection, to each terminal, in whatever tab; and to the timer
    /// of the cursor where the active terminal wants its cursor to blink.
    pub open spec fn listens(self, s: Subscriptions) -> bool {
        &&& s.editor_keys == self.editing()
        &&& s.streams@.len() == (if self.connected {
            self.terminal_sessions.len()
        } else {
            0
        })
        &&& forall|i: int|
            0 <= i < s.streams@.len() ==> stream_model(#[trigger] s.streams@[i]) == (
                self.terminal_sessions[i].tab_id,
                self.terminal_sessions[i].session.session_id,
            )
        &&& s.blink == (self.connected && match self.active_slot() {
            Some(i) => self.terminal_sessions[i].session.appearance.cursor_blink,
            None => false,
        })
    }
}

impl VidaApp {
    /// What the application listens to.
    pub fn subscription(&self) -> (res: Subscriptions)
        ensures
            self@.listens(res),
    {
        let editor_keys: bool = match tabs::find_tab(&self.tabs, self.active_tab_id.as_str()) {
            Some(i) => {
                proof {
                    assert(self@.tabs[i as int] == self.tabs@[i as int]@);
                }
                match &self.tabs[i].kind {
                    TabKind::AddHost => true,
                    TabKind::EditHost { .. } => true,
                    _ => false,
                }
            },
            None => false,
        };
        let mut streams: Vec<(String, String)> = Vec::new();
        if !self.connected {
            return Subscriptions { editor_keys, streams, blink: false };
        }
        let mut i: usize = 0;
        while i < self.terminal_sessions.len()
            invariant
                i <= self.terminal_sessions@.len(),
                streams@.len() == i,
                forall|k: int|
                    0 <= k < i ==> stream_model(#[trigger] streams@[k]) == (
                        self@.terminal_sessions[k].tab_id,
                        self@.terminal_sessions[k].session.session_id,
                    ),
            decreases self.terminal_sessions@.len() - i,
        {
            let slot = &self.terminal_sessions[i];
            streams.push((slot.tab_id.clone(), slot.session.session_id.clone()));
            i += 1;
        }
        let blink: bool = match tabs::find_slot(
            &self.terminal_sessions,
            self.active_tab_id.as_str(),
        ) {
            Some(i) => self.terminal_sessions[i].session.appearance.cursor_blink,
            None => false,
        };
        Subscriptions { editor_keys, streams, blink }
    }
}

/// The key that stands for commands on the platform is held down.
pub open spec fn commands(m: Modifiers, platform: Platform) -> bool {
    match platform {
        Platform::MacOs => m.logo,
        Platform::Other => m.control,
    }
}

/// The key moves the focus in the editor.
pub open spec fn moves_focus(key: Key, m: Modifiers, repeat: bool, platform: Platform) -> bool {
    key == Key::Named(Named::Tab) && !repeat && !commands(m, platform) && !m.control && !m.alt
}

/// The message of a key in the editor: the tabulator moves the focus on, and
/// back together with the shift key.
pub fn editor_focus_event(key: &Key, modifiers: Modifiers, repeat: bool, platform: Platform) -> (res:
    Option<AppMessage>)
    ensures
        match res {
            Some(m) => moves_focus(*key, modifiers, repeat, platform) && m == (if modifiers.shift {
                AppMessage::EditorFocusPrevious
            } else {
                AppMessage::EditorFocusNext
            }),
            None => !moves_focus(*key, modifiers, repeat, platform),
        },
{
    let command: bool = match platform {
        Platform::MacOs => modifiers.logo,
        Platform::Other => modifiers.control,
    };
    match key {
        Key::Named(Named::Tab) if !repeat && !command && !modifiers.control && !modifiers.alt =>
            Some(
            if modifiers.shift {
                AppMessage::EditorFocusPrevious
            } else {
                AppMessage::EditorFocusNext
            },
        ),
        _ => None,
    }
}

/// The active tab decides what the main screen shows: a host, its terminal, the
/// settings or the editor.
pub proof fn law_active_tab_decides(app: AppModel, i: int)
    requires
        0 <= i < app.tabs.len(),
        app.tabs[i].id == app.active_tab_id,
        forall|j: int| 0 <= j < i ==> (#[trigger] app.tabs[j]).id != app.active_tab_id,
    ensures
        ({
            let shown = app.tab_content();
            &&& app.tabs[i].kind matches TabKindModel::Host { host_id } ==> shown
                == ContentModel::Host(host_id)
            &&& app.tabs[i].kind is Settings && app.settings_state is Some ==> shown is Settings
            &&& app.tabs[i].kind is Settings && app.settings_state is None ==> shown is Line
            &&& app.tabs[i].kind is AddHost && app.editor_state is Some ==> shown is Editor
            &&& app.tabs[i].kind is EditHost && app.editor_state is Some ==> shown is Editor
            &&& app.tabs[i].kind is AddHost && app.editor_state is None ==> shown is Line
            &&& app.tabs[i].kind is Terminal ==> shown is Line || (shown matches
                ContentModel::Terminal(k) && 0 <= k < app.terminal_sessions.len()
                && app.terminal_sessions[k].tab_id == app.active_tab_id)
            &&& app.editing() <==> app.tabs[i].kind is AddHost || app.tabs[i].kind is EditHost
        }),
{
    let p = |t: TabModel| t.id == app.active_tab_id;
    assert(model::first_at(app.tabs, p, i));
    model::lemma_first_index_some(app.tabs, p, i);
    let q = |s: SlotModel| s.tab_id == app.active_tab_id;
    model::lemma_first_index_any(app.terminal_sessions, q);
}

/// Before the vault is open its screens fill the window; after that, and where
/// a decision is asked for, they do not.
pub proof fn law_screens_that_fill_the_window(app: AppModel)
    ensures
        app.fills_window() <==> app.screen is ConnectionFailure || app.screen is Setup
            || app.screen is Unlock,
        app.screen is Main ==> !app.fills_window(),
{
}

/// The tabulator moves the focus of the editor, unless it is held down or comes
/// with the keys of a command; no other key does.
pub proof fn law_tabulator_moves_the_focus(key: Key, m: Modifiers, platform: Platform)
    ensures
        moves_focus(key, m, true, platform) == false,
        key != Key::Named(Named::Tab) ==> !moves_focus(key, m, false, platform),
        key == Key::Named(Named::Tab) && !m.control && !m.alt && !m.logo ==> moves_focus(
            key,
            m,
            false,
            platform,
        ),
        m.control || m.alt ==> !moves_focus(key, m, false, platform),
        m.logo && platform is MacOs ==> !moves_focus(key, m, false, platform),
{
}

/// The page has the bar of tabs once the vault is open, the active tab on the
/// main screen, and the panel for connecting only there and only while it is
/// open; it lists the hosts that were found.
pub proof fn law_page_shows_the_application(app: AppModel, page: Page)
    requires
        app.shown_by(page),
    ensures
        app.screen is Setup || app.screen is Unlock || app.screen is ConnectionFailure <==> page.bar
            is None,
        app.screen is Main ==> page.content@ == app.tab_content(),
        !(app.screen is Main) ==> page.content@ is Screen && page.panel is None && page.error
            is None,
        app.screen is Main && app.show_connect_panel <==> page.panel is Some,
        page.bar matches Some(bar) ==> bar.chips@.len() == app.tabs.len(),
{
}

/// With a connection the application listens to every terminal, in whatever tab,
/// under its own session; without one to none. The cursor blinks only where the
/// active terminal wants it to.
pub proof fn law_every_terminal_is_listened_to(app: AppModel, s: Subscriptions, i: int)
    requires
        app.listens(s),
    ensures
        !app.connected ==> s.streams@.len() == 0 && !s.blink,
        app.connected && 0 <= i < app.terminal_sessions.len() ==> s.streams@[i].0@
            == app.terminal_sessions[i].tab_id && s.streams@[i].1@
            == app.terminal_sessions[i].session.session_id,
        app.connected ==> s.streams@.len() == app.terminal_sessions.len(),
        app.connected && 0 <= i < app.terminal_sessions.len() && app.terminal_sessions[i].tab_id
            == app.active_tab_id && (forall|j: int|
            0 <= j < i ==> (#[trigger] app.terminal_sessions[j]).tab_id != app.active_tab_id)
            ==> s.blink == app.terminal_sessions[i].session.appearance.cursor_blink,
{
    if app.connected && 0 <= i < app.terminal_sessions.len() {
        assert(stream_model(s.streams@[i]) == (
            app.terminal_sessions[i].tab_id,
            app.terminal_sessions[i].session.session_id,
        ));
        let p = |s: SlotModel| s.tab_id == app.active_tab_id;
        if app.terminal_sessions[i].tab_id == app.active_tab_id && (forall|j: int|
            0 <= j < i ==> (#[trigger] app.terminal_sessions[j]).tab_id != app.active_tab_id) {
            assert(model::first_at(app.terminal_sessions, p, i));
            model::lemma_first_index_some(app.terminal_sessions, p, i);
        }
    }
}

} // verus!
