//! What no message changes.
use vstd::prelude::*;

use crate::app::connection;
use crate::app::hosts;
use crate::app::message;
use crate::app::message::{AppMessage, CallModel, CommandModel, MappingModel};
use crate::app::settings;
use crate::app::tabs;
use crate::app::terminal;
use crate::app::{AppModel, SlotModel};
use crate::model;
use crate::screens::s3_main;
use crate::screens::s3_main::HostModel;
use crate::screens::{ScreenModel, TabModel};
use crate::strings;
use crate::text;
use crate::text::Lang;

verus! {

// ---------------------------------------------------------------------------
// The tabs of hosts
// ---------------------------------------------------------------------------

/// A tab has the id and the name of a host.
pub open spec fn is_tab_of(t: TabModel, h: HostModel) -> bool {
    t == TabModel::host(h.id, text::plain(h.name))
}

/// Every tab of a host is that of one of the hosts.
pub open spec fn name_hosts(tabs: Seq<TabModel>, hosts: Seq<HostModel>) -> bool {
    forall|i: int|
        0 <= i < tabs.len() && (#[trigger] tabs[i]).kind is Host ==> exists|j: int|
            0 <= j < hosts.len() && is_tab_of(tabs[i], #[trigger] hosts[j])
}

impl AppModel {
    /// Every tab of a host is that of one of the hosts, and shows its name.
    pub open spec fn tabs_name_hosts(self) -> bool {
        name_hosts(self.tabs, self.hosts)
    }
}

/// The tabs of hosts in one list are among those of another one.
spec fn among(after: Seq<TabModel>, before: Seq<TabModel>) -> bool {
    forall|i: int|
        0 <= i < after.len() && (#[trigger] after[i]).kind is Host ==> before.contains(after[i])
}

proof fn lemma_among(after: Seq<TabModel>, before: Seq<TabModel>, hosts: Seq<HostModel>)
    requires
        name_hosts(before, hosts),
        among(after, before),
    ensures
        name_hosts(after, hosts),
{
    assert forall|i: int| 0 <= i < after.len() && (#[trigger] after[i]).kind is Host implies exists|
        j: int,
    |
        0 <= j < hosts.len() && is_tab_of(after[i], #[trigger] hosts[j]) by {
        let k = choose|k: int| 0 <= k < before.len() && before[k] == after[i];
        assert(before[k].kind is Host);
    }
}

proof fn lemma_filtered(before: Seq<TabModel>, p: spec_fn(TabModel) -> bool)
    ensures
        among(before.filter(p), before),
{
    model::lemma_filter_members(before, p);
}

proof fn lemma_pushed(before: Seq<TabModel>, t: TabModel)
    requires
        !(t.kind is Host),
    ensures
        among(before.push(t), before),
{
    let after = before.push(t);
    assert forall|i: int| 0 <= i < after.len() && (
    #[trigger] after[i]).kind is Host implies before.contains(after[i]) by {
        assert(after[i] == before[i]);
    }
}

proof fn lemma_set_hosts(app: AppModel, hosts: Seq<HostModel>)
    ensures
        app.set_hosts(hosts).tabs_name_hosts(),
{
    tabs::law_host_tabs_follow_hosts(app, hosts);
    let after = app.set_hosts(hosts);
    assert forall|i: int| 0 <= i < after.tabs.len() && (
    #[trigger] after.tabs[i]).kind is Host implies exists|j: int|
        0 <= j < after.hosts.len() && is_tab_of(after.tabs[i], #[trigger] after.hosts[j]) by {
        assert(is_tab_of(after.tabs[i], after.hosts[i]));
    }
}

proof fn lemma_renamed(before: Seq<TabModel>, lang: Lang)
    ensures
        among(settings::renamed_all(before, lang), before),
{
    let after = settings::renamed_all(before, lang);
    assert forall|i: int| 0 <= i < after.len() && (
    #[trigger] after[i]).kind is Host implies before.contains(after[i]) by {
        assert(after[i] == before[i]);
    }
}

proof fn lemma_remapped(app: AppModel, list: Seq<MappingModel>)
    requires
        app.tabs_name_hosts(),
    ensures
        app.remapped_all(list).tabs_name_hosts(),
        app.remapped_all(list).hosts == app.hosts,
    decreases list.len(),
{
    if list.len() > 0 {
        let before = app.remapped_all(list.drop_last());
        lemma_remapped(app, list.drop_last());
        let after = terminal::tabs_after(before.tabs, list.last());
        assert forall|i: int| 0 <= i < after.len() && (
        #[trigger] after[i]).kind is Host implies before.tabs.contains(after[i]) by {
            assert(after[i] == before.tabs[i]);
        }
        lemma_among(after, before.tabs, before.hosts);
    }
}

proof fn lemma_terminal_step(app: AppModel, m: AppMessage)
    requires
        app.tabs_name_hosts(),
        app.terminal_step(m) is Some,
    ensures
        (app.terminal_step(m)->0).0.tabs_name_hosts(),
{
    match m {
        AppMessage::TerminalOpened { session_id, title, host_id } => {
            let after = (app.terminal_step(m)->0).0;
            if app.screen is Main {
                lemma_pushed(app.tabs, after.tabs.last());
                assert(after.tabs =~= app.tabs.push(after.tabs.last()));
                lemma_among(after.tabs, app.tabs, app.hosts);
            }
        },
        AppMessage::TerminalReconnected { mappings } => {
            let begun = AppModel {
                connected: true,
                terminal_reconnect_cooldown: None,
                terminal_restore_pending: false,
                terminal_reconnect_in_flight: false,
                terminal_error: None,
                ..app
            };
            lemma_remapped(begun, message::mapping_models(mappings@));
        },
        _ => {
            assert((app.terminal_step(m)->0).0.tabs == app.tabs);
            assert((app.terminal_step(m)->0).0.hosts == app.hosts);
        },
    }
}

proof fn lemma_connection_step(app: AppModel, m: AppMessage)
    requires
        app.tabs_name_hosts(),
        app.connection_step(m) is Some,
    ensures
        (app.connection_step(m)->0).0.tabs_name_hosts(),
{
    match m {
        AppMessage::LockVault => {
            lemma_filtered(app.tabs, |t: TabModel| !(t.kind is Terminal));
            lemma_among(
                app.tabs.filter(|t: TabModel| !(t.kind is Terminal)),
                app.tabs,
                app.hosts,
            );
        },
        _ => {
            assert((app.connection_step(m)->0).0.tabs == app.tabs);
            assert((app.connection_step(m)->0).0.hosts == app.hosts);
        },
    }
}

proof fn lemma_tab_step(app: AppModel, m: AppMessage)
    requires
        app.tabs_name_hosts(),
        app.tab_step(m) is Some,
    ensures
        (app.tab_step(m)->0).0.tabs_name_hosts(),
{
    let after = (app.tab_step(m)->0).0;
    match m {
        AppMessage::HostsLoaded(hosts) => {
            lemma_set_hosts(app, s3_main::host_models(hosts@));
        },
        AppMessage::CloseTab(tab_id) => {
            lemma_filtered(app.tabs, |t: TabModel| t.id != tab_id@);
            lemma_among(after.tabs, app.tabs, app.hosts);
        },
        AppMessage::OpenAddHostTab | AppMessage::OpenSettingsTab | AppMessage::QuickAddHost
        | AppMessage::EditHost(_) => {
            if after.tabs != app.tabs {
                lemma_pushed(app.tabs, after.tabs.last());
                assert(after.tabs =~= app.tabs.push(after.tabs.last()));
                lemma_among(after.tabs, app.tabs, app.hosts);
            }
        },
        _ => {
            assert(after.tabs == app.tabs);
            assert(after.hosts == app.hosts);
        },
    }
}

proof fn lemma_editing_step(app: AppModel, m: AppMessage)
    requires
        app.tabs_name_hosts(),
    ensures
        app.field_step(m) is Some ==> (app.field_step(m)->0).0.tabs_name_hosts(),
        app.editor_step(m) is Some ==> (app.editor_step(m)->0).0.tabs_name_hosts(),
{
    if app.editor_step(m) is Some {
        let after = (app.editor_step(m)->0).0;
        match m {
            AppMessage::EditorSaved | AppMessage::EditorCancel => {
                lemma_filtered(
                    app.tabs,
                    |t: TabModel|
                        t.id != app.active_tab_id && !(t.kind is AddHost)
                            && !strings::stands_at(t.id, "edit_"@, 0),
                );
                lemma_among(after.tabs, app.tabs, app.hosts);
            },
            _ => {
                assert(after.tabs == app.tabs);
                assert(after.hosts == app.hosts);
            },
        }
    }
    if app.field_step(m) is Some {
        assert((app.field_step(m)->0).0.tabs == app.tabs);
        assert((app.field_step(m)->0).0.hosts == app.hosts);
    }
}

proof fn lemma_settings_step(app: AppModel, m: AppMessage)
    requires
        app.tabs_name_hosts(),
    ensures
        app.choice_step(m) is Some ==> (app.choice_step(m)->0).0.tabs_name_hosts(),
        app.settings_step(m) is Some ==> (app.settings_step(m)->0).0.tabs_name_hosts(),
{
    if app.settings_step(m) is Some {
        let after = (app.settings_step(m)->0).0;
        match m {
            AppMessage::SettingsLanguageChanged { choice, system } => {
                lemma_renamed(app.tabs, settings::chosen_lang(choice, system));
                lemma_among(after.tabs, app.tabs, app.hosts);
            },
            _ => {
                assert(after.tabs == app.tabs);
                assert(after.hosts == app.hosts);
            },
        }
    }
    if app.choice_step(m) is Some {
        assert((app.choice_step(m)->0).0.tabs == app.tabs);
        assert((app.choice_step(m)->0).0.hosts == app.hosts);
    }
}

proof fn lemma_syncing_step(app: AppModel, m: AppMessage)
    requires
        app.tabs_name_hosts(),
    ensures
        app.sync_step(m) is Some ==> (app.sync_step(m)->0).0.tabs_name_hosts(),
        app.backup_step(m) is Some ==> (app.backup_step(m)->0).0.tabs_name_hosts(),
{
    if app.sync_step(m) is Some {
        let after = (app.sync_step(m)->0).0;
        match m {
            AppMessage::SyncCompleted(value) => {
                let list = match value@.member("hosts"@) {
                    Some(list) => hosts::hosts_of(list),
                    None => Seq::empty(),
                };
                lemma_set_hosts(app, list);
            },
            _ => {
                assert(after.tabs == app.tabs);
                assert(after.hosts == app.hosts);
            },
        }
    }
    if app.backup_step(m) is Some {
        let after = (app.backup_step(m)->0).0;
        match m {
            AppMessage::BackupRestored { hosts, settings, warning } => {
                lemma_set_hosts(app, s3_main::host_models(hosts@));
            },
            _ => {
                assert(after.tabs == app.tabs);
                assert(after.hosts == app.hosts);
            },
        }
    }
}

/// The tabs never drift from the hosts: as the application starts, and after
/// every message, each tab of a host is that of one of the hosts and shows its
/// name.
pub proof fn law_tabs_never_drift(app: AppModel, m: AppMessage, lang: Lang)
    ensures
        AppModel::started(lang).tabs_name_hosts(),
        app.tabs_name_hosts() ==> app.step(m).0.tabs_name_hosts(),
{
    if app.tabs_name_hosts() {
        if app.terminal_step(m) is Some {
            lemma_terminal_step(app, m);
        } else if app.connection_step(m) is Some {
            lemma_connection_step(app, m);
        } else if app.tab_step(m) is Some {
            lemma_tab_step(app, m);
        } else {
            lemma_editing_step(app, m);
            lemma_settings_step(app, m);
            lemma_syncing_step(app, m);
        }
    }
}

// ---------------------------------------------------------------------------
// Requests
// ---------------------------------------------------------------------------

/// A command that only a connection to the daemon can carry out.
pub open spec fn needs_connection(c: CommandModel) -> bool {
    match c {
        CommandModel::Call { .. } => true,
        CommandModel::Unsubscribe(_) => true,
        CommandModel::Queue { .. } => true,
        CommandModel::OpenTerminal { .. } => true,
        CommandModel::Restore(_) => true,
        CommandModel::ReadBackup { .. } => true,
        _ => false,
    }
}

/// No command needs a connection.
pub open spec fn all_local(commands: Seq<CommandModel>) -> bool {
    forall|i: int| 0 <= i < commands.len() ==> !needs_connection(#[trigger] commands[i])
}

proof fn lemma_terminal_requests(app: AppModel, m: AppMessage)
    requires
        app.accepts(m),
        !app.connected,
        app.terminal_step(m) is Some,
    ensures
        all_local((app.terminal_step(m)->0).1),
{
}

proof fn lemma_connection_requests(app: AppModel, m: AppMessage)
    requires
        app.accepts(m),
        !app.connected,
        !(m is WsConnected),
        app.connection_step(m) is Some,
    ensures
        all_local((app.connection_step(m)->0).1),
{
}

proof fn lemma_tab_requests(app: AppModel, m: AppMessage)
    requires
        app.accepts(m),
        !app.connected,
        app.tab_step(m) is Some,
    ensures
        all_local((app.tab_step(m)->0).1),
{
}

proof fn lemma_editing_requests(app: AppModel, m: AppMessage)
    requires
        app.accepts(m),
        !app.connected,
    ensures
        app.field_step(m) is Some ==> all_local((app.field_step(m)->0).1),
        app.editor_step(m) is Some ==> all_local((app.editor_step(m)->0).1),
{
}

proof fn lemma_settings_requests(app: AppModel, m: AppMessage)
    requires
        app.accepts(m),
        !app.connected,
    ensures
        app.choice_step(m) is Some ==> all_local((app.choice_step(m)->0).1),
        app.settings_step(m) is Some ==> all_local((app.settings_step(m)->0).1),
{
}

proof fn lemma_syncing_requests(app: AppModel, m: AppMessage)
    requires
        app.accepts(m),
        !app.connected,
    ensures
        app.sync_step(m) is Some ==> all_local((app.sync_step(m)->0).1),
        app.backup_step(m) is Some ==> all_local((app.backup_step(m)->0).1),
{
}

/// A message that the application takes asks nothing of the daemon unless
/// there is a connection, before the message or by it.
pub proof fn law_requests_need_a_connection(app: AppModel, m: AppMessage)
    requires
        app.accepts(m),
        !app.connected,
    ensures
        app.step(m).0.connected || all_local(app.step(m).1),
{
    if m is WsConnected {
        assert(app.step(m) == app.ws_connected());
    } else if app.terminal_step(m) is Some {
        lemma_terminal_requests(app, m);
    } else if app.connection_step(m) is Some {
        lemma_connection_requests(app, m);
    } else if app.tab_step(m) is Some {
        lemma_tab_requests(app, m);
    } else {
        lemma_editing_requests(app, m);
        lemma_settings_requests(app, m);
        lemma_syncing_requests(app, m);
    }
}

// ---------------------------------------------------------------------------
// The passphrase
// ---------------------------------------------------------------------------

/// The command asks the daemon to keep the passphrase.
pub open spec fn keeps_passphrase(c: CommandModel) -> bool {
    c matches CommandModel::Call {
        request: CallModel::Unlock { passphrase: _, remember_seconds },
        pending: _,
    } && remember_seconds is Some
}

/// No command asks the daemon to keep the passphrase.
pub open spec fn none_keeps(commands: Seq<CommandModel>) -> bool {
    forall|i: int| 0 <= i < commands.len() ==> !keeps_passphrase(#[trigger] commands[i])
}

impl AppModel {
    /// It was not chosen to keep the passphrase.
    pub open spec fn keeps_nothing(self) -> bool {
        self.screen matches ScreenModel::Unlock(s) ==> s.remember_duration is Never
    }
}

proof fn lemma_close_keeps_nothing(slots: Seq<SlotModel>)
    ensures
        none_keeps(connection::close_sessions(slots)),
    decreases slots.len(),
{
    if slots.len() > 0 {
        lemma_close_keeps_nothing(slots.drop_last());
    }
}

proof fn lemma_remapped_screen(app: AppModel, list: Seq<MappingModel>)
    ensures
        app.remapped_all(list).screen == app.screen,
    decreases list.len(),
{
    if list.len() > 0 {
        lemma_remapped_screen(app, list.drop_last());
    }
}

proof fn lemma_terminal_keeps_nothing(app: AppModel, m: AppMessage)
    requires
        app.keeps_nothing(),
        app.terminal_step(m) is Some,
    ensures
        (app.terminal_step(m)->0).0.keeps_nothing(),
        none_keeps((app.terminal_step(m)->0).1),
{
    if let AppMessage::TerminalReconnected { mappings } = m {
        let begun = AppModel {
            connected: true,
            terminal_reconnect_cooldown: None,
            terminal_restore_pending: false,
            terminal_reconnect_in_flight: false,
            terminal_error: None,
            ..app
        };
        lemma_remapped_screen(begun, message::mapping_models(mappings@));
    }
}

proof fn lemma_connection_keeps_nothing(app: AppModel, m: AppMessage)
    requires
        app.keeps_nothing(),
        !(m is UnlockRememberChanged),
        app.connection_step(m) is Some,
    ensures
        (app.connection_step(m)->0).0.keeps_nothing(),
        none_keeps((app.connection_step(m)->0).1),
{
    lemma_close_keeps_nothing(app.terminal_sessions);
}

proof fn lemma_tab_keeps_nothing(app: AppModel, m: AppMessage)
    requires
        app.keeps_nothing(),
        app.tab_step(m) is Some,
    ensures
        (app.tab_step(m)->0).0.keeps_nothing(),
        none_keeps((app.tab_step(m)->0).1),
{
}

proof fn lemma_editing_keeps_nothing(app: AppModel, m: AppMessage)
    requires
        app.keeps_nothing(),
    ensures
        app.field_step(m) matches Some(after) ==> after.0.keeps_nothing() && none_keeps(after.1),
        app.editor_step(m) matches Some(after) ==> after.0.keeps_nothing() && none_keeps(after.1),
{
}

proof fn lemma_settings_keeps_nothing(app: AppModel, m: AppMessage)
    requires
        app.keeps_nothing(),
    ensures
        app.choice_step(m) matches Some(after) ==> after.0.keeps_nothing() && none_keeps(after.1),
        app.settings_step(m) matches Some(after) ==> after.0.keeps_nothing() && none_keeps(
            after.1,
        ),
{
}

proof fn lemma_syncing_keeps_nothing(app: AppModel, m: AppMessage)
    requires
        app.keeps_nothing(),
    ensures
        app.sync_step(m) matches Some(after) ==> after.0.keeps_nothing() && none_keeps(after.1),
        app.backup_step(m) matches Some(after) ==> after.0.keeps_nothing() && none_keeps(after.1),
{
}

/// The passphrase is kept by explicit choice alone: as the application starts,
/// nothing of it is to be kept, and until a duration is chosen no message asks
/// the daemon to keep it.
pub proof fn law_passphrase_is_kept_by_choice(app: AppModel, m: AppMessage, lang: Lang)
    ensures
        AppModel::started(lang).keeps_nothing(),
        app.keeps_nothing() && !(m is UnlockRememberChanged) ==> app.step(m).0.keeps_nothing()
            && none_keeps(app.step(m).1),
{
    if app.keeps_nothing() && !(m is UnlockRememberChanged) {
        if app.terminal_step(m) is Some {
            lemma_terminal_keeps_nothing(app, m);
        } else if app.connection_step(m) is Some {
            lemma_connection_keeps_nothing(app, m);
        } else if app.tab_step(m) is Some {
            lemma_tab_keeps_nothing(app, m);
        } else {
            lemma_editing_keeps_nothing(app, m);
            lemma_settings_keeps_nothing(app, m);
            lemma_syncing_keeps_nothing(app, m);
        }
    }
}

} // verus!
