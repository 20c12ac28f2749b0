//! What the messages for tabs are for.
use vstd::prelude::*;

use crate::app::AppModel;
use crate::app::message::{AppMessage, CallModel, CommandModel, Field, PendingModel};
use crate::app::tabs;

verus! {

/// Switching makes exactly the chosen tab active and hides a credential; no tab
/// and no terminal is lost.
pub proof fn law_switching_tabs(app: AppModel, id: String)
    requires
        app.cred_hide_token < u64::MAX,
    ensures
        ({
            let (after, asked) = app.on_tab(AppMessage::SwitchTab(id));
            &&& after.active_tab_id == id@
            &&& after.tabs == app.tabs
            &&& after.terminal_sessions == app.terminal_sessions
            &&& after.hosts == app.hosts
            &&& app.screen is Main ==> after.screen is Main
                && after.screen->Main_0.revealed_credential is None
            &&& !(app.screen is Main) ==> after.screen == app.screen
            &&& after.cred_hide_token == app.cred_hide_token + 1
            &&& asked.len() <= 1
            &&& asked.len() == 1 ==> asked[0] == CommandModel::Focus(Field::Terminal)
        }),
{
}

/// The settings open in one tab, however often they are opened, and are loaded
/// once.
pub proof fn law_settings_open_once(app: AppModel)
    ensures
        ({
            let (after, asked) = app.on_tab(AppMessage::OpenSettingsTab);
            &&& after.active_tab_id == "settings"@
            &&& tabs::has_tab(after.tabs, "settings"@)
            &&& after.on_tab(AppMessage::OpenSettingsTab).0.tabs == after.tabs
            &&& after.hosts == app.hosts
            &&& app.settings_state is None ==> asked == seq![
                CommandModel::Call {
                    request: CallModel::GetSettings,
                    pending: PendingModel::Settings,
                },
            ]
            &&& app.settings_state is Some ==> asked.len() == 0
        }),
{
    let (after, asked) = app.on_tab(AppMessage::OpenSettingsTab);
    if !tabs::has_tab(app.tabs, "settings"@) {
        assert(after.tabs[app.tabs.len() as int].id == "settings"@);
    }
}

/// The panel for connecting opens and closes in turn, with nothing searched for,
/// and has the focus when it opens.
pub proof fn law_panel_toggles(app: AppModel, q: String)
    ensures
        ({
            let (after, asked) = app.on_tab(AppMessage::ToggleConnectPanel);
            &&& after.show_connect_panel == !app.show_connect_panel
            &&& after.connect_panel_search.len() == 0
            &&& asked == (if app.show_connect_panel {
                Seq::empty()
            } else {
                seq![CommandModel::Focus(Field::ConnectSearch)]
            })
        }),
        !app.on_tab(AppMessage::CloseConnectPanel).0.show_connect_panel,
        app.on_tab(AppMessage::ConnectPanelSearch(q)).0 == (AppModel {
            connect_panel_search: q@,
            ..app
        }),
{
}

} // verus!
