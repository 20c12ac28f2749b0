//! Tabs, hosts and the panel for connecting.
use vstd::prelude::*;

use crate::app::message;
use crate::app::message::{Command, CommandModel, Field};
use crate::app::{slot_models, AppModel, SlotModel, TabSession, VidaApp};
use crate::json;
use crate::model;
use crate::screens;
use crate::screens::s3_main;
use crate::screens::s3_main::{HostItem, HostModel};
use crate::screens::s4_credential;
use crate::screens::{Screen, ScreenModel, Tab, TabKind, TabModel};
use crate::strings;
use crate::text;
use crate::text::Text;

verus! {

// ---------------------------------------------------------------------------
// Lists of tabs and terminals
// ---------------------------------------------------------------------------

/// Some tab has the id.
pub open spec fn has_tab(tabs: Seq<TabModel>, id: Seq<char>) -> bool {
    model::any_match(tabs, |t: TabModel| t.id == id)
}

/// The first tab with the id.
pub open spec fn tab_at(tabs: Seq<TabModel>, id: Seq<char>) -> Option<int> {
    model::first_index(tabs, |t: TabModel| t.id == id)
}

/// The id of the first tab, or an empty one.
pub open spec fn first_id(tabs: Seq<TabModel>) -> Seq<char> {
    if tabs.len() == 0 {
        Seq::empty()
    } else {
        tabs[0].id
    }
}

/// The tabs without those of an id.
pub open spec fn without_tab(tabs: Seq<TabModel>, id: Seq<char>) -> Seq<TabModel> {
    tabs.filter(|t: TabModel| t.id != id)
}

/// The tabs of hosts, in the order of the hosts.
pub open spec fn host_tabs(hosts: Seq<HostModel>) -> Seq<TabModel> {
    Seq::new(hosts.len(), |i: int| TabModel::host(hosts[i].id, text::plain(hosts[i].name)))
}

/// The tabs that are not those of hosts.
pub open spec fn other_tabs(tabs: Seq<TabModel>) -> Seq<TabModel> {
    tabs.filter(|t: TabModel| !(t.kind is Host))
}

/// The terminal of a tab.
pub open spec fn slot_at(slots: Seq<SlotModel>, tab_id: Seq<char>) -> Option<int> {
    model::first_index(slots, |s: SlotModel| s.tab_id == tab_id)
}

/// The terminal with a session.
pub open spec fn session_at(slots: Seq<SlotModel>, session_id: Seq<char>) -> Option<int> {
    model::first_index(slots, |s: SlotModel| s.session.session_id == session_id)
}

/// The position of the first tab with an id.
pub fn find_tab(tabs: &Vec<Tab>, id: &str) -> (res: Option<usize>)
    ensures
        match res {
            Some(i) => i < tabs@.len() && tab_at(screens::tab_models(tabs@), id@) == Some(i as int)
                && has_tab(screens::tab_models(tabs@), id@),
            None => tab_at(screens::tab_models(tabs@), id@) == None::<int> && !has_tab(
                screens::tab_models(tabs@),
                id@,
            ),
        },
{
    let ghost all = screens::tab_models(tabs@);
    let ghost p = |t: TabModel| t.id == id@;
    let mut i: usize = 0;
    while i < tabs.len()
        invariant
            i <= tabs@.len(),
            all == screens::tab_models(tabs@),
            p == (|t: TabModel| t.id == id@),
            forall|k: int| 0 <= k < i ==> !p(#[trigger] all[k]),
        decreases tabs@.len() - i,
    {
        if strings::text_eq(tabs[i].id.as_str(), id) {
            proof {
                assert(p(all[i as int]));
                model::lemma_first_index_some(all, p, i as int);
            }
            return Some(i);
        }
        proof {
            assert(!p(all[i as int]));
        }
        i += 1;
    }
    proof {
        model::lemma_first_index_none(all, p);
    }
    None
}

/// The position of the terminal of a tab.
pub fn find_slot(slots: &Vec<TabSession>, tab_id: &str) -> (res: Option<usize>)
    ensures
        match res {
            Some(i) => i < slots@.len() && slot_at(slot_models(slots@), tab_id@) == Some(i as int)
                && slots@[i as int].tab_id@ == tab_id@,
            None => slot_at(slot_models(slots@), tab_id@) == None::<int> && forall|k: int|
                0 <= k < slots@.len() ==> (#[trigger] slots@[k]).tab_id@ != tab_id@,
        },
{
    let ghost all = slot_models(slots@);
    let ghost p = |s: SlotModel| s.tab_id == tab_id@;
    let mut i: usize = 0;
    while i < slots.len()
        invariant
            i <= slots@.len(),
            all == slot_models(slots@),
            p == (|s: SlotModel| s.tab_id == tab_id@),
            forall|k: int| 0 <= k < i ==> !p(#[trigger] all[k]),
        decreases slots@.len() - i,
    {
        if strings::text_eq(slots[i].tab_id.as_str(), tab_id) {
            proof {
                assert(p(all[i as int]));
                model::lemma_first_index_some(all, p, i as int);
            }
            return Some(i);
        }
        proof {
            assert(!p(all[i as int]));
        }
        i += 1;
    }
    proof {
        model::lemma_first_index_none(all, p);
        assert forall|k: int| 0 <= k < slots@.len() implies (#[trigger] slots@[k]).tab_id@ != tab_id@ by {
            assert(!p(all[k]));
        }
    }
    None
}

/// The position of the terminal with a session.
pub fn find_session(slots: &Vec<TabSession>, session_id: &str) -> (res: Option<usize>)
    ensures
        match res {
            Some(i) => i < slots@.len() && session_at(slot_models(slots@), session_id@) == Some(
                i as int,
            ),
            None => session_at(slot_models(slots@), session_id@) == None::<int>,
        },
{
    let ghost all = slot_models(slots@);
    let ghost p = |s: SlotModel| s.session.session_id == session_id@;
    let mut i: usize = 0;
    while i < slots.len()
        invariant
            i <= slots@.len(),
            all == slot_models(slots@),
            p == (|s: SlotModel| s.session.session_id == session_id@),
            forall|k: int| 0 <= k < i ==> !p(#[trigger] all[k]),
        decreases slots@.len() - i,
    {
        if strings::text_eq(slots[i].session.session_id.as_str(), session_id) {
            proof {
                assert(p(all[i as int]));
                model::lemma_first_index_some(all, p, i as int);
            }
            return Some(i);
        }
        proof {
            assert(!p(all[i as int]));
        }
        i += 1;
    }
    proof {
        model::lemma_first_index_none(all, p);
    }
    None
}

/// The id of the first tab, or an empty one.
pub fn first_tab_id(tabs: &Vec<Tab>) -> (res: String)
    ensures
        res@ == first_id(screens::tab_models(tabs@)),
{
    if tabs.len() == 0 {
        let out = String::new();
        proof {
            assert(out@ =~= Seq::<char>::empty());
        }
        out
    } else {
        tabs[0].id.clone()
    }
}

fn push_tab(tabs: &mut Vec<Tab>, tab: Tab)
    ensures
        screens::tab_models(final(tabs)@) == screens::tab_models(old(tabs)@).push(tab@),
{
    let ghost before = tabs@;
    tabs.push(tab);
    proof {
        assert(screens::tab_models(tabs@) =~= screens::tab_models(before).push(tab@));
    }
}

/// The tabs that a test keeps, in order. The test is by the id and the kind of
/// a tab.
pub enum Keep<'a> {
    /// All but those of an id.
    AllBut(&'a str),
    /// All but those of terminals.
    NoTerminals,
    /// All but those of hosts.
    NoHosts,
    /// All but those of an id, and those in which hosts are added or edited.
    NoEditors(&'a str),
}

impl<'a> Keep<'a> {
    pub open spec fn test(self) -> spec_fn(TabModel) -> bool {
        match self {
            Keep::AllBut(id) => |t: TabModel| t.id != id@,
            Keep::NoTerminals => |t: TabModel| !(t.kind is Terminal),
            Keep::NoHosts => |t: TabModel| !(t.kind is Host),
            Keep::NoEditors(id) => |t: TabModel|
                t.id != id@ && !(t.kind is AddHost) && !strings::stands_at(t.id, "edit_"@, 0),
        }
    }

    fn keeps(&self, tab: &Tab) -> (res: bool)
        ensures
            res == (self.test())(tab@),
    {
        match self {
            Keep::AllBut(id) => !strings::text_eq(tab.id.as_str(), id),
            Keep::NoTerminals => match tab.kind {
                TabKind::Terminal { .. } => false,
                _ => true,
            },
            Keep::NoHosts => match tab.kind {
                TabKind::Host { .. } => false,
                _ => true,
            },
            Keep::NoEditors(id) => {
                let adds: bool = match tab.kind {
                    TabKind::AddHost => true,
                    _ => false,
                };
                !strings::text_eq(tab.id.as_str(), id) && !adds && !strings::begins_with(
                    tab.id.as_str(),
                    "edit_",
                )
            },
        }
    }
}

/// The tabs that a test keeps, in order.
pub fn keep_tabs(tabs: &Vec<Tab>, keep: Keep) -> (res: Vec<Tab>)
    ensures
        screens::tab_models(res@) == screens::tab_models(tabs@).filter(keep.test()),
{
    let ghost all = screens::tab_models(tabs@);
    let ghost p = keep.test();
    let mut out: Vec<Tab> = Vec::new();
    let mut i: usize = 0;
    proof {
        reveal(Seq::filter);
        assert(screens::tab_models(out@) =~= all.take(0).filter(p));
    }
    while i < tabs.len()
        invariant
            i <= tabs@.len(),
            all == screens::tab_models(tabs@),
            p == keep.test(),
            screens::tab_models(out@) == all.take(i as int).filter(p),
        decreases tabs@.len() - i,
    {
        proof {
            model::lemma_filter_take(all, i as int, p);
        }
        if keep.keeps(&tabs[i]) {
            let tab = tabs[i].clone();
            push_tab(&mut out, tab);
        }
        i += 1;
    }
    proof {
        assert(all.take(i as int) =~= all);
    }
    out
}

// ---------------------------------------------------------------------------
// Hosts
// ---------------------------------------------------------------------------

impl AppModel {
    /// The application with other hosts: their tabs follow them, the other tabs
    /// stay, and the active tab stays where it still exists.
    pub open spec fn set_hosts(self, hosts: Seq<HostModel>) -> AppModel {
        let tabs = host_tabs(hosts) + other_tabs(self.tabs);
        AppModel {
            hosts,
            tabs,
            active_tab_id: if self.active_tab_id.len() > 0 && has_tab(tabs, self.active_tab_id) {
                self.active_tab_id
            } else {
                first_id(tabs)
            },
            ..self
        }
    }

    /// The state of the main screen with no credential showing.
    pub open spec fn hide_credential(self) -> AppModel {
        match self.screen {
            ScreenModel::Main(_) => AppModel {
                screen: ScreenModel::Main(s3_main::StateModel::hidden()),
                ..self
            },
            _ => self,
        }
    }

    pub open spec fn active_slot(self) -> Option<int> {
        slot_at(self.terminal_sessions, self.active_tab_id)
    }

    /// Another tab becomes active. The credential that shows belongs to the
    /// tab before, so it hides, and no timer hides another one.
    pub open spec fn switch_tab(self, tab_id: Seq<char>) -> (AppModel, Seq<CommandModel>) {
        let switched = AppModel {
            active_tab_id: tab_id,
            cred_hide_token: (self.cred_hide_token + 1) as u64,
            ..self
        }.hide_credential();
        (
            switched,
            if switched.active_slot() is Some {
                seq![CommandModel::Focus(Field::Terminal)]
            } else {
                Seq::empty()
            },
        )
    }

    /// The tab in which a host is added opens.
    pub open spec fn open_add_host(self) -> (AppModel, Seq<CommandModel>) {
        (
            AppModel {
                tabs: if has_tab(self.tabs, "add_host"@) {
                    self.tabs
                } else {
                    self.tabs.push(TabModel::add_host(text::tr(self.lang, "main_add_host_tab"@)))
                },
                active_tab_id: "add_host"@,
                editor_state: Some(s4_credential::StateModel::adding()),
                ..self
            },
            Seq::empty(),
        )
    }

    /// The tab of the settings opens; they are loaded where they are not yet.
    pub open spec fn open_settings(self) -> (AppModel, Seq<CommandModel>) {
        (
            AppModel {
                tabs: if has_tab(self.tabs, "settings"@) {
                    self.tabs
                } else {
                    self.tabs.push(TabModel::settings(text::tr(self.lang, "main_tab_settings"@)))
                },
                active_tab_id: "settings"@,
                ..self
            },
            if self.settings_state is None {
                message::get_settings()
            } else {
                Seq::empty()
            },
        )
    }

    /// The terminal of a tab ends: its session is closed.
    pub open spec fn close_terminal(self, tab_id: Seq<char>) -> (AppModel, Seq<CommandModel>) {
        match slot_at(self.terminal_sessions, tab_id) {
            None => (self, Seq::empty()),
            Some(i) => (
                AppModel { terminal_sessions: self.terminal_sessions.remove(i), ..self },
                if self.connected {
                    close_session(self.terminal_sessions[i].session.session_id)
                } else {
                    Seq::empty()
                },
            ),
        }
    }

    /// A tab closes, and its terminal with it. Where it was active, the tab
    /// that takes its place becomes active, or the last one.
    pub open spec fn close_tab(self, tab_id: Seq<char>) -> (AppModel, Seq<CommandModel>) {
        let (closed, commands) = self.close_terminal(tab_id);
        let tabs = without_tab(self.tabs, tab_id);
        (
            AppModel {
                tabs,
                active_tab_id: if self.active_tab_id != tab_id {
                    self.active_tab_id
                } else {
                    neighbour(tabs, tab_at(self.tabs, tab_id))
                },
                ..closed
            },
            commands,
        )
    }

    pub open spec fn toggle_panel(self) -> (AppModel, Seq<CommandModel>) {
        (
            AppModel {
                show_connect_panel: !self.show_connect_panel,
                connect_panel_search: Seq::empty(),
                ..self
            },
            if self.show_connect_panel {
                Seq::empty()
            } else {
                seq![CommandModel::Focus(Field::ConnectSearch)]
            },
        )
    }

    /// The application with a host as the one connected to last.
    pub open spec fn with_recent(self, host_id: Seq<char>) -> AppModel {
        AppModel {
            show_connect_panel: false,
            recent_host_ids: recent_with(self.recent_host_ids, host_id),
            ..self
        }
    }

    /// The hosts were loaded: the main screen shows. The settings are loaded
    /// where they are not yet, and the terminals are taken up again where that
    /// is due.
    pub open spec fn hosts_loaded(self, hosts: Seq<HostModel>) -> (AppModel, Seq<CommandModel>) {
        let loaded = AppModel {
            screen: ScreenModel::Main(s3_main::StateModel::hidden()),
            ..self.set_hosts(hosts)
        };
        (
            loaded,
            (if self.settings_state is None {
                message::get_settings()
            } else {
                Seq::empty()
            }) + (if self.terminal_restore_pending {
                loaded.restore_commands()
            } else {
                Seq::empty()
            }),
        )
    }

    /// The editor of a host opens in a tab of its own.
    pub open spec fn edit_host(self, host_id: Seq<char>) -> (AppModel, Seq<CommandModel>) {
        (
            match s3_main::host_with(self.hosts, host_id) {
                None => self,
                Some(h) => AppModel {
                    tabs: if has_tab(self.tabs, "edit_"@ + host_id) {
                        self.tabs
                    } else {
                        self.tabs.push(
                            TabModel::edit_host(
                                host_id,
                                text::trf1(self.lang, "main_edit_host_tab"@, h.name),
                            ),
                        )
                    },
                    active_tab_id: "edit_"@ + host_id,
                    editor_state: Some(
                        s4_credential::StateModel::editing(
                            h.id,
                            h.name,
                            h.host,
                            h.user,
                            h.port,
                            h.tags,
                            h.group,
                            h.color,
                            h.auth_kind,
                            h.notes,
                        ),
                    ),
                    ..self
                },
            },
            Seq::empty(),
        )
    }

    /// The editor closes, and the hosts are loaded again.
    pub open spec fn close_editor(self) -> (AppModel, Seq<CommandModel>) {
        let tabs = self.tabs.filter(
            |t: TabModel|
                t.id != self.active_tab_id && !(t.kind is AddHost) && !strings::stands_at(
                    t.id,
                    "edit_"@,
                    0,
                ),
        );
        (
            AppModel { tabs, active_tab_id: first_id(tabs), editor_state: None, ..self },
            message::list_hosts(),
        )
    }

    /// The terminals that have ended, to be taken up again.
    pub open spec fn restore_commands(self) -> Seq<CommandModel> {
        let list = closed_snapshots(self.terminal_sessions);
        if !self.connected || list.len() == 0 {
            Seq::empty()
        } else {
            seq![CommandModel::Restore(list)]
        }
    }
}

/// The terminals that have ended, in order.
pub open spec fn closed_snapshots(slots: Seq<SlotModel>) -> Seq<message::SnapshotModel>
    decreases slots.len(),
{
    if slots.len() == 0 {
        Seq::empty()
    } else {
        let before = closed_snapshots(slots.drop_last());
        let s = slots.last().session;
        if s.closed {
            before.push(
                message::SnapshotModel {
                    session_id: s.session_id,
                    rows: s.grid.rows,
                    cols: s.grid.cols,
                    remote_host_id: s.remote_host_id,
                },
            )
        } else {
            before
        }
    }
}

/// The texts that are another one.
pub open spec fn other_than(id: Seq<char>) -> spec_fn(Seq<char>) -> bool {
    |r: Seq<char>| r != id
}

/// The list with an id in front, once, and at most ten long.
pub open spec fn recent_with(recent: Seq<Seq<char>>, id: Seq<char>) -> Seq<Seq<char>> {
    let list = seq![id] + recent.filter(other_than(id));
    if list.len() > 10 {
        list.take(10)
    } else {
        list
    }
}

/// The tab that takes the place of a closed one.
pub open spec fn neighbour(tabs: Seq<TabModel>, closed: Option<int>) -> Seq<char> {
    if tabs.len() == 0 {
        Seq::empty()
    } else {
        match closed {
            Some(i) => if i < tabs.len() {
                tabs[i].id
            } else {
                tabs.last().id
            },
            None => tabs[0].id,
        }
    }
}

/// A session is closed without waiting for a reply.
pub open spec fn close_session(session_id: Seq<char>) -> Seq<CommandModel> {
    seq![
        CommandModel::Unsubscribe(session_id),
        CommandModel::Queue {
            kind: "CloseSession"@,
            body: json::one_text("session_id"@, session_id),
            notice_tab: None,
        },
    ]
}

pub fn closing_commands(session_id: &str) -> (res: Vec<Command>)
    ensures
        message::command_models(res@) == close_session(session_id@),
{
    let mut commands = message::one(Command::Unsubscribe(session_id.to_string()));
    message::push_command(
        &mut commands,
        Command::Queue {
            kind: "CloseSession".to_string(),
            body: json::text_object("session_id", session_id),
            notice_tab: None,
        },
    );
    proof {
        assert(message::command_models(commands@) =~= close_session(session_id@));
    }
    commands
}

/// Taking one terminal out keeps the list in order.
pub proof fn lemma_remove_keeps_wf(app: AppModel, i: int)
    requires
        app.wf(),
        0 <= i < app.terminal_sessions.len(),
    ensures
        (AppModel { terminal_sessions: app.terminal_sessions.remove(i), ..app }).wf(),
{
    let after = app.terminal_sessions.remove(i);
    assert forall|a: int, b: int| 0 <= a < b < after.len() implies (#[trigger] after[a]).tab_id != (
    #[trigger] after[b]).tab_id by {
        let x = if a < i {
            a
        } else {
            a + 1
        };
        let y = if b < i {
            b
        } else {
            b + 1
        };
        assert(after[a] == app.terminal_sessions[x]);
        assert(after[b] == app.terminal_sessions[y]);
    }
    assert forall|a: int| 0 <= a < after.len() implies (#[trigger] after[a]).session.grid.wf() by {
        let x = if a < i {
            a
        } else {
            a + 1
        };
        assert(after[a] == app.terminal_sessions[x]);
    }
}

impl VidaApp {
    /// Replaces the hosts and their tabs.
    pub fn set_hosts(&mut self, hosts: Vec<HostItem>)
        ensures
            final(self)@ == old(self)@.set_hosts(s3_main::host_models(hosts@)),
    {
        let mut others = keep_tabs(&self.tabs, Keep::NoHosts);
        let ghost kept = others@;
        let ghost all = s3_main::host_models(hosts@);
        proof {
            assert(Keep::NoHosts.test() =~= (|t: TabModel| !(t.kind is Host)));
        }
        let mut tabs: Vec<Tab> = Vec::new();
        let mut i: usize = 0;
        while i < hosts.len()
            invariant
                i <= hosts@.len(),
                all == s3_main::host_models(hosts@),
                screens::tab_models(tabs@) =~= host_tabs(all).take(i as int),
            decreases hosts@.len() - i,
        {
            push_tab(
                &mut tabs,
                Tab::host(hosts[i].id.clone(), Text::plain(hosts[i].name.clone())),
            );
            i += 1;
        }
        let ghost own = tabs@;
        tabs.append(&mut others);
        proof {
            assert(screens::tab_models(own) =~= host_tabs(all));
            assert(screens::tab_models(tabs@) =~= screens::tab_models(own) + screens::tab_models(
                kept,
            ));
        }
        self.hosts = hosts;
        self.tabs = tabs;
        let stays: bool = !self.active_tab_id.as_str().is_empty() && find_tab(
            &self.tabs,
            self.active_tab_id.as_str(),
        ).is_some();
        if !stays {
            self.active_tab_id = first_tab_id(&self.tabs);
        }
    }

    fn hide_credential(&mut self)
        ensures
            final(self)@ == old(self)@.hide_credential(),
    {
        let on_main: bool = match self.screen {
            Screen::Main(_) => true,
            _ => false,
        };
        if on_main {
            self.screen = main_screen();
        }
    }

    /// Another tab becomes active.
    pub fn switch_tab(&mut self, tab_id: String) -> (res: Vec<Command>)
        requires
            old(self).cred_hide_token < u64::MAX,
        ensures
            (final(self)@, message::command_models(res@)) == old(self)@.switch_tab(tab_id@),
    {
        self.active_tab_id = tab_id;
        self.cred_hide_token = self.cred_hide_token + 1;
        self.hide_credential();
        if find_slot(&self.terminal_sessions, self.active_tab_id.as_str()).is_some() {
            message::one(Command::Focus(Field::Terminal))
        } else {
            message::nothing()
        }
    }

    /// The tab in which a host is added opens.
    pub fn open_add_host(&mut self) -> (res: Vec<Command>)
        ensures
            (final(self)@, message::command_models(res@)) == old(self)@.open_add_host(),
    {
        if find_tab(&self.tabs, "add_host").is_none() {
            push_tab(&mut self.tabs, Tab::add_host(self.i18n.tr("main_add_host_tab")));
        }
        self.active_tab_id = "add_host".to_string();
        self.editor_state = Some(s4_credential::State::new_add());
        message::nothing()
    }

    /// The tab of the settings opens.
    pub fn open_settings(&mut self) -> (res: Vec<Command>)
        ensures
            (final(self)@, message::command_models(res@)) == old(self)@.open_settings(),
    {
        if find_tab(&self.tabs, "settings").is_none() {
            push_tab(&mut self.tabs, Tab::settings(self.i18n.tr("main_tab_settings")));
        }
        self.active_tab_id = "settings".to_string();
        if self.settings_state.is_none() {
            message::ask_settings()
        } else {
            message::nothing()
        }
    }

    /// The terminal of a tab ends.
    pub fn close_terminal_session(&mut self, tab_id: &str) -> (res: Vec<Command>)
        requires
            old(self)@.wf(),
        ensures
            final(self)@.wf(),
            (final(self)@, message::command_models(res@)) == old(self)@.close_terminal(tab_id@),
    {
        match find_slot(&self.terminal_sessions, tab_id) {
            None => message::nothing(),
            Some(i) => {
                proof {
                    lemma_remove_keeps_wf(self@, i as int);
                }
                let ghost before = self.terminal_sessions@;
                let slot = self.terminal_sessions.remove(i);
                proof {
                    assert(slot_models(self.terminal_sessions@) =~= slot_models(before).remove(
                        i as int,
                    ));
                }
                if self.connected {
                    closing_commands(slot.session.session_id.as_str())
                } else {
                    message::nothing()
                }
            },
        }
    }

    /// A tab closes.
    pub fn close_tab(&mut self, tab_id: &str) -> (res: Vec<Command>)
        requires
            old(self)@.wf(),
        ensures
            final(self)@.wf(),
            (final(self)@, message::command_models(res@)) == old(self)@.close_tab(tab_id@),
    {
        let position = find_tab(&self.tabs, tab_id);
        let commands = self.close_terminal_session(tab_id);
        self.tabs = keep_tabs(&self.tabs, Keep::AllBut(tab_id));
        proof {
            assert(Keep::AllBut(tab_id).test() =~= (|t: TabModel| t.id != tab_id@));
        }
        if strings::text_eq(self.active_tab_id.as_str(), tab_id) {
            let count: usize = self.tabs.len();
            if count == 0 {
                self.active_tab_id = first_tab_id(&self.tabs);
            } else {
                let next: usize = match position {
                    Some(i) => if i < count {
                        i
                    } else {
                        count - 1
                    },
                    None => 0,
                };
                self.active_tab_id = self.tabs[next].id.clone();
            }
        }
        commands
    }

    pub fn toggle_panel(&mut self) -> (res: Vec<Command>)
        ensures
            (final(self)@, message::command_models(res@)) == old(self)@.toggle_panel(),
    {
        self.show_connect_panel = !self.show_connect_panel;
        self.connect_panel_search = String::new();
        proof {
            assert(self.connect_panel_search@ =~= Seq::<char>::empty());
        }
        if self.show_connect_panel {
            message::one(Command::Focus(Field::ConnectSearch))
        } else {
            message::nothing()
        }
    }

    /// A host becomes the one connected to last.
    pub fn remember_recent(&mut self, host_id: &str)
        ensures
            final(self)@ == old(self)@.with_recent(host_id@),
    {
        self.show_connect_panel = false;
        let ghost p = other_than(host_id@);
        let ghost old_list = strings::texts(self.recent_host_ids@);
        let mut list: Vec<String> = Vec::new();
        list.push(host_id.to_string());
        let mut i: usize = 0;
        proof {
            reveal(Seq::filter);
            assert(strings::texts(list@) =~= seq![host_id@] + old_list.take(0).filter(p));
        }
        while i < self.recent_host_ids.len()
            invariant
                i <= self.recent_host_ids@.len(),
                old_list == strings::texts(self.recent_host_ids@),
                p == other_than(host_id@),
                strings::texts(list@) == seq![host_id@] + old_list.take(i as int).filter(p),
            decreases self.recent_host_ids@.len() - i,
        {
            let ghost before = list@;
            proof {
                model::lemma_filter_take(old_list, i as int, p);
            }
            if !strings::text_eq(self.recent_host_ids[i].as_str(), host_id) {
                list.push(self.recent_host_ids[i].clone());
                proof {
                    assert(strings::texts(list@) =~= strings::texts(before).push(
                        old_list[i as int],
                    ));
                    assert(strings::texts(list@) =~= seq![host_id@] + old_list.take(
                        i + 1,
                    ).filter(p));
                }
            }
            i += 1;
        }
        let ghost whole = strings::texts(list@);
        proof {
            assert(old_list.take(i as int) =~= old_list);
            assert(list@.len() == whole.len());
        }
        if list.len() > 10 {
            list.truncate(10);
            proof {
                assert(strings::texts(list@) =~= whole.take(10));
            }
        }
        self.recent_host_ids = list;
    }

    /// The hosts were loaded.
    pub fn load_hosts(&mut self, hosts: Vec<HostItem>) -> (res: Vec<Command>)
        ensures
            (final(self)@, message::command_models(res@)) == old(self)@.hosts_loaded(
                s3_main::host_models(hosts@),
            ),
    {
        self.set_hosts(hosts);
        self.screen = main_screen();
        let mut commands = if self.settings_state.is_none() {
            message::ask_settings()
        } else {
            message::nothing()
        };
        let ghost before = message::command_models(commands@);
        if self.terminal_restore_pending {
            let mut more = self.restore_terminal_sessions();
            let ghost first = commands@;
            let ghost rest = more@;
            commands.append(&mut more);
            proof {
                assert(message::command_models(commands@) =~= message::command_models(first)
                    + message::command_models(rest));
            }
        }
        proof {
            assert(before + Seq::<CommandModel>::empty() =~= before);
        }
        commands
    }

    /// The terminals that have ended are taken up again.
    pub fn restore_terminal_sessions(&self) -> (res: Vec<Command>)
        ensures
            message::command_models(res@) == self@.restore_commands(),
    {
        if !self.connected {
            return message::nothing();
        }
        let ghost all = slot_models(self.terminal_sessions@);
        let mut list: Vec<message::Snapshot> = Vec::new();
        let mut i: usize = 0;
        proof {
            assert(message::snapshot_models(list@) =~= closed_snapshots(all.take(0)));
        }
        while i < self.terminal_sessions.len()
            invariant
                i <= self.terminal_sessions@.len(),
                all == slot_models(self.terminal_sessions@),
                message::snapshot_models(list@) == closed_snapshots(all.take(i as int)),
            decreases self.terminal_sessions@.len() - i,
        {
            proof {
                assert(all.take(i + 1).drop_last() =~= all.take(i as int));
            }
            let session = &self.terminal_sessions[i].session;
            if session.closed {
                let ghost before = list@;
                let snapshot = message::Snapshot {
                    session_id: session.session_id.clone(),
                    rows: session.grid.rows,
                    cols: session.grid.cols,
                    remote_host_id: text::clone_opt_string(&session.remote_host_id),
                };
                list.push(snapshot);
                proof {
                    assert(message::snapshot_models(list@) =~= message::snapshot_models(
                        before,
                    ).push(snapshot@));
                }
            }
            i += 1;
        }
        proof {
            assert(all.take(i as int) =~= all);
            assert(message::snapshot_models(list@).len() == list@.len());
        }
        if list.len() == 0 {
            message::nothing()
        } else {
            message::one(Command::Restore(list))
        }
    }

    /// The editor of a host opens.
    pub fn edit_host(&mut self, host_id: &str) -> (res: Vec<Command>)
        ensures
            (final(self)@, message::command_models(res@)) == old(self)@.edit_host(host_id@),
    {
        let (state, name) = match s3_main::find_host(&self.hosts, host_id) {
            None => return message::nothing(),
            Some(h) => (
                s4_credential::State::new_edit(
                    h.id.clone(),
                    h.name.clone(),
                    h.host.clone(),
                    h.user.clone(),
                    h.port,
                    text::clone_strings(&h.tags),
                    text::clone_opt_string(&h.group),
                    text::clone_opt_string(&h.color),
                    h.auth_kind.clone(),
                    text::clone_opt_string(&h.notes),
                ),
                h.name.clone(),
            ),
        };
        let tab_id = strings::concat("edit_", host_id);
        if find_tab(&self.tabs, tab_id.as_str()).is_none() {
            let title = self.i18n.trf1("main_edit_host_tab", name);
            push_tab(&mut self.tabs, Tab::edit_host(host_id.to_string(), title));
        }
        self.active_tab_id = tab_id;
        self.editor_state = Some(state);
        message::nothing()
    }

    /// The editor closes.
    pub fn close_editor(&mut self) -> (res: Vec<Command>)
        ensures
            (final(self)@, message::command_models(res@)) == old(self)@.close_editor(),
    {
        let active = self.active_tab_id.clone();
        let key = active.as_str();
        self.tabs = keep_tabs(&self.tabs, Keep::NoEditors(key));
        proof {
            let id = old(self)@.active_tab_id;
            assert(Keep::NoEditors(key).test() =~= (|t: TabModel|
                t.id != id && !(t.kind is AddHost) && !strings::stands_at(t.id, "edit_"@, 0)));
        }
        self.active_tab_id = first_tab_id(&self.tabs);
        self.editor_state = None;
        message::ask_hosts()
    }
}

/// The main screen with no credential showing.
pub fn main_screen() -> (res: Screen)
    ensures
        res@ == ScreenModel::Main(s3_main::StateModel::hidden()),
{
    Screen::Main(s3_main::State { revealed_credential: None, credential_copied: false })
}

// ---------------------------------------------------------------------------
// Laws
// ---------------------------------------------------------------------------

/// Whatever the hosts become, each has a tab with its name, in their order
/// before all other tabs, and no tab of a host is left over.
pub proof fn law_host_tabs_follow_hosts(app: AppModel, hosts: Seq<HostModel>)
    ensures
        ({
            let after = app.set_hosts(hosts);
            &&& after.hosts == hosts
            &&& after.tabs.len() >= hosts.len()
            &&& forall|i: int|
                0 <= i < hosts.len() ==> (#[trigger] after.tabs[i]) == TabModel::host(
                    hosts[i].id,
                    text::plain(hosts[i].name),
                )
            &&& forall|i: int|
                hosts.len() <= i < after.tabs.len() ==> !((#[trigger] after.tabs[i]).kind is Host)
        }),
{
    let p = |t: TabModel| !(t.kind is Host);
    model::lemma_filter_members(app.tabs, p);
    let after = app.set_hosts(hosts);
    assert forall|i: int| hosts.len() <= i < after.tabs.len() implies !((
    #[trigger] after.tabs[i]).kind is Host) by {
        let k = i - hosts.len();
        assert(after.tabs[i] == other_tabs(app.tabs)[k]);
        assert(p(other_tabs(app.tabs)[k]));
    }
}

/// Setting the hosts again to what they are changes nothing.
pub proof fn law_set_hosts_twice(app: AppModel, hosts: Seq<HostModel>)
    ensures
        app.set_hosts(hosts).set_hosts(hosts) == app.set_hosts(hosts),
{
    let p = |t: TabModel| !(t.kind is Host);
    let once = app.set_hosts(hosts);
    let twice = once.set_hosts(hosts);
    lemma_filter_concat(host_tabs(hosts), other_tabs(app.tabs), p);
    model::lemma_filter_members(app.tabs, p);
    lemma_filter_nothing(host_tabs(hosts), p);
    model::lemma_filter_all(other_tabs(app.tabs), p);
    assert(Seq::<TabModel>::empty() + other_tabs(app.tabs) =~= other_tabs(app.tabs));
    assert(twice.tabs == once.tabs);
    let id = once.active_tab_id;
    let q = |t: TabModel| t.id == id;
    if id != first_id(once.tabs) {
        assert(has_tab(once.tabs, id));
    }
    assert(twice =~= once);
}

proof fn lemma_filter_nothing<T>(s: Seq<T>, p: spec_fn(T) -> bool)
    requires
        forall|i: int| 0 <= i < s.len() ==> !p(#[trigger] s[i]),
    ensures
        s.filter(p) == Seq::<T>::empty(),
    decreases s.len(),
{
    reveal(Seq::filter);
    if s.len() > 0 {
        lemma_filter_nothing(s.drop_last(), p);
        assert(!p(s[s.len() - 1]));
    } else {
        assert(s.filter(p) =~= Seq::<T>::empty());
    }
}

proof fn lemma_filter_concat<T>(a: Seq<T>, b: Seq<T>, p: spec_fn(T) -> bool)
    ensures
        (a + b).filter(p) == a.filter(p) + b.filter(p),
    decreases b.len(),
{
    reveal(Seq::filter);
    if b.len() == 0 {
        assert(a + b =~= a);
        assert(a.filter(p) + b.filter(p) =~= a.filter(p));
    } else {
        lemma_filter_concat(a, b.drop_last(), p);
        assert((a + b).drop_last() =~= a + b.drop_last());
        assert((a + b).last() == b.last());
        assert((a + b).filter(p) =~= a.filter(p) + b.filter(p));
    }
}

/// A tab that closes is gone, its terminal too, and no other terminal is.
pub proof fn law_closed_tab_is_gone(app: AppModel, tab_id: Seq<char>, other: Seq<char>)
    requires
        app.wf(),
        other != tab_id,
    ensures
        !has_tab(app.close_tab(tab_id).0.tabs, tab_id),
        slot_at(app.close_tab(tab_id).0.terminal_sessions, tab_id) is None,
        slot_at(app.terminal_sessions, other) matches Some(i) ==> {
            let after = app.close_tab(tab_id).0.terminal_sessions;
            slot_at(after, other) matches Some(j) && after[j] == app.terminal_sessions[i]
        },
{
    let keep = |t: TabModel| t.id != tab_id;
    let same = |t: TabModel| t.id == tab_id;
    model::lemma_filter_members(app.tabs, keep);
    let tabs = without_tab(app.tabs, tab_id);
    assert forall|i: int| 0 <= i < tabs.len() implies !same(#[trigger] tabs[i]) by {
        assert(keep(tabs[i]));
    }
    model::lemma_first_index_none(tabs, same);
    let p = |s: SlotModel| s.tab_id == tab_id;
    let q = |s: SlotModel| s.tab_id == other;
    let slots = app.terminal_sessions;
    let after = app.close_tab(tab_id).0.terminal_sessions;
    model::lemma_first_index_any(slots, p);
    model::lemma_first_index_any(slots, q);
    if let Some(k) = slot_at(slots, tab_id) {
        assert forall|i: int| 0 <= i < after.len() implies !p(#[trigger] after[i]) by {
            let x = if i < k {
                i
            } else {
                i + 1
            };
            assert(after[i] == slots[x]);
            assert(slots[x].tab_id != slots[k].tab_id);
        }
        model::lemma_first_index_none(after, p);
        if let Some(i) = slot_at(slots, other) {
            let j = if i < k {
                i
            } else {
                i - 1
            };
            assert(after[j] == slots[i]);
            assert(q(after[j]));
            assert forall|m: int| 0 <= m < j implies !q(#[trigger] after[m]) by {
                let x = if m < k {
                    m
                } else {
                    m + 1
                };
                assert(after[m] == slots[x]);
                assert(!q(slots[x]));
            }
            model::lemma_first_index_some(after, q, j);
        }
    }
}

proof fn lemma_filter_no_duplicates<T>(s: Seq<T>, p: spec_fn(T) -> bool)
    requires
        s.no_duplicates(),
    ensures
        s.filter(p).no_duplicates(),
    decreases s.len(),
{
    reveal(Seq::filter);
    if s.len() > 0 {
        let init = s.drop_last();
        lemma_filter_no_duplicates(init, p);
        model::lemma_filter_members(init, p);
        let f = init.filter(p);
        assert forall|i: int| 0 <= i < f.len() implies #[trigger] f[i] != s.last() by {
            assert(init.contains(f[i]));
            let k = choose|k: int| 0 <= k < init.len() && init[k] == f[i];
            assert(s[k] == f[i] && s[s.len() - 1] == s.last());
        }
    }
}

/// The list of hosts connected to last has at most ten entries, begins with
/// the last one, and names no host twice where it did not before.
pub proof fn law_recent_hosts(recent: Seq<Seq<char>>, id: Seq<char>)
    ensures
        recent_with(recent, id).len() <= 10,
        recent_with(recent, id)[0] == id,
        recent.no_duplicates() ==> recent_with(recent, id).no_duplicates(),
{
    let p = other_than(id);
    model::lemma_filter_members(recent, p);
    let rest = recent.filter(p);
    let list = seq![id] + rest;
    if recent.no_duplicates() {
        lemma_filter_no_duplicates(recent, p);
        assert forall|i: int, j: int| 0 <= i < list.len() && 0 <= j < list.len() && i != j implies list[i]
            != list[j] by {
            if i > 0 {
                assert(list[i] == rest[i - 1] && p(rest[i - 1]));
            }
            if j > 0 {
                assert(list[j] == rest[j - 1] && p(rest[j - 1]));
            }
        }
        let kept = recent_with(recent, id);
        assert forall|i: int, j: int| 0 <= i < kept.len() && 0 <= j < kept.len() && i != j implies kept[i]
            != kept[j] by {
            assert(kept[i] == list[i] && kept[j] == list[j]);
        }
    }
}

proof fn lemma_without_one(tabs: Seq<TabModel>, i: int)
    requires
        0 <= i < tabs.len(),
        forall|a: int, b: int|
            0 <= a < b < tabs.len() ==> (#[trigger] tabs[a]).id != (#[trigger] tabs[b]).id,
    ensures
        without_tab(tabs, tabs[i].id) == tabs.remove(i),
{
    let p = |t: TabModel| t.id != tabs[i].id;
    let (a, b) = (tabs.take(i), tabs.skip(i + 1));
    assert(tabs =~= a.push(tabs[i]) + b);
    assert forall|k: int| 0 <= k < a.len() implies p(#[trigger] a[k]) by {
        assert(a[k] == tabs[k]);
    }
    assert forall|k: int| 0 <= k < b.len() implies p(#[trigger] b[k]) by {
        assert(b[k] == tabs[i + 1 + k]);
    }
    model::lemma_filter_all(a, p);
    model::lemma_filter_all(b, p);
    model::lemma_filter_push(a, tabs[i], p);
    lemma_filter_concat(a.push(tabs[i]), b, p);
    assert(a + b =~= tabs.remove(i));
}

/// When the active tab closes, the one after it becomes active, the one before
/// it where it was the last, and none where it was the only one. Another tab
/// that closes leaves the active one alone. All other tabs stay in order.
pub proof fn law_closing_moves_to_the_neighbour(app: AppModel, i: int)
    requires
        0 <= i < app.tabs.len(),
        forall|a: int, b: int|
            0 <= a < b < app.tabs.len() ==> (#[trigger] app.tabs[a]).id != (
            #[trigger] app.tabs[b]).id,
    ensures
        ({
            let after = app.close_tab(app.tabs[i].id).0;
            &&& after.tabs == app.tabs.remove(i)
            &&& app.active_tab_id != app.tabs[i].id ==> after.active_tab_id == app.active_tab_id
            &&& app.active_tab_id == app.tabs[i].id ==> {
                &&& i + 1 < app.tabs.len() ==> after.active_tab_id == app.tabs[i + 1].id
                &&& i + 1 == app.tabs.len() && i > 0 ==> after.active_tab_id == app.tabs[i - 1].id
                &&& app.tabs.len() == 1 ==> after.active_tab_id.len() == 0
            }
        }),
{
    lemma_without_one(app.tabs, i);
    let p = |t: TabModel| t.id == app.tabs[i].id;
    assert(model::first_at(app.tabs, p, i));
    model::lemma_first_index_some(app.tabs, p, i);
}

/// The active tab stays active as long as it is there; otherwise the first tab
/// becomes active.
pub proof fn law_active_tab_stays(app: AppModel, hosts: Seq<HostModel>, i: int)
    ensures
        ({
            let after = app.set_hosts(hosts);
            &&& 0 <= i < after.tabs.len() && after.tabs[i].id == app.active_tab_id
                && app.active_tab_id.len() > 0 ==> after.active_tab_id == app.active_tab_id
            &&& (forall|k: int|
                0 <= k < after.tabs.len() ==> (#[trigger] after.tabs[k]).id != app.active_tab_id)
                && hosts.len() > 0 ==> after.active_tab_id == hosts[0].id
            &&& after.terminal_sessions == app.terminal_sessions
        }),
{
    let after = app.set_hosts(hosts);
    let p = |t: TabModel| t.id == app.active_tab_id;
    if 0 <= i < after.tabs.len() && after.tabs[i].id == app.active_tab_id {
        assert(p(after.tabs[i]));
    }
    if hosts.len() > 0 {
        assert(after.tabs[0] == host_tabs(hosts)[0]);
    }
}

/// The terminals that ended are asked for again, in order, each by its session,
/// its host and its size; those that run are not.
pub proof fn law_ended_terminals_are_asked_for(slots: Seq<SlotModel>, slot: SlotModel)
    ensures
        closed_snapshots(Seq::empty()).len() == 0,
        !slot.session.closed ==> closed_snapshots(slots.push(slot)) == closed_snapshots(slots),
        slot.session.closed ==> closed_snapshots(slots.push(slot)) == closed_snapshots(slots).push(
            message::SnapshotModel {
                session_id: slot.session.session_id,
                rows: slot.session.grid.rows,
                cols: slot.session.grid.cols,
                remote_host_id: slot.session.remote_host_id,
            },
        ),
{
    assert(slots.push(slot).drop_last() =~= slots);
}

} // verus!
