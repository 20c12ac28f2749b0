//! What the messages for the settings and for backups are for.
use vstd::prelude::*;

use crate::app::message::{AppMessage, CallModel, CommandModel, PendingModel, QuickResult};
use crate::app::AppModel;
use crate::json::JsonModel;
use crate::screens::s3_main;
use crate::screens::s3_main::HostItem;
use crate::screens::s5_settings;
use crate::screens::s5_settings::{LangChoice, SettingsSection, SyncMode};
use crate::screens::s9_backup;
use crate::strings;
use crate::text;
use crate::text::Lang;

verus! {

/// The numbers of a list of bytes.
pub open spec fn is_byte_list(value: JsonModel, data: Seq<u8>) -> bool {
    &&& value is Array
    &&& value->Array_0.len() == data.len()
    &&& forall|i: int|
        0 <= i < data.len() ==> #[trigger] value->Array_0[i] == JsonModel::Unsigned(data[i] as nat)
}

impl AppModel {
    /// What a message for the fields of the settings does.
    pub open spec fn chosen(self, m: AppMessage) -> (AppModel, Seq<CommandModel>) {
        match self.choice_step(m) {
            Some(next) => next,
            None => self.settings_step(m)->0,
        }
    }

    /// What a message for backups does.
    pub open spec fn backed_up(self, m: AppMessage) -> (AppModel, Seq<CommandModel>) {
        self.backup_step(m)->0
    }
}

/// The messages for the settings and for backups are handled as such.
pub proof fn law_settings_and_backups_are_handled(app: AppModel, m: AppMessage)
    ensures
        app.choice_step(m) is Some ==> app.step(m) == app.chosen(m),
        app.settings_step(m) is Some ==> app.step(m) == app.chosen(m),
        app.backup_step(m) is Some ==> app.step(m) == app.backed_up(m),
{
    if app.choice_step(m) is Some || app.settings_step(m) is Some || app.backup_step(m) is Some {
        lemma_no_terminal(app, m);
        lemma_no_connection(app, m);
        lemma_no_tab(app, m);
        lemma_no_field(app, m);
        lemma_no_sync(app, m);
    }
}

proof fn lemma_no_terminal(app: AppModel, m: AppMessage)
    requires
        app.choice_step(m) is Some || app.settings_step(m) is Some || app.backup_step(m) is Some,
    ensures
        app.terminal_step(m) is None,
{
}

proof fn lemma_no_connection(app: AppModel, m: AppMessage)
    requires
        app.choice_step(m) is Some || app.settings_step(m) is Some || app.backup_step(m) is Some,
    ensures
        app.connection_step(m) is None,
{
}

proof fn lemma_no_tab(app: AppModel, m: AppMessage)
    requires
        app.choice_step(m) is Some || app.settings_step(m) is Some || app.backup_step(m) is Some,
    ensures
        app.tab_step(m) is None,
{
}

proof fn lemma_no_field(app: AppModel, m: AppMessage)
    requires
        app.choice_step(m) is Some || app.settings_step(m) is Some || app.backup_step(m) is Some,
    ensures
        app.field_step(m) is None,
        app.editor_step(m) is None,
{
}

proof fn lemma_no_sync(app: AppModel, m: AppMessage)
    requires
        app.choice_step(m) is Some || app.settings_step(m) is Some || app.backup_step(m) is Some,
    ensures
        app.sync_step(m) is None,
        app.choice_step(m) is Some ==> app.settings_step(m) is None && app.backup_step(m) is None,
        app.settings_step(m) is Some ==> app.backup_step(m) is None,
{
}

/// What is chosen for a setting is what the setting holds; it changes no other
/// one, and the settings no longer count as saved.
pub proof fn law_settings_fields(
    app: AppModel,
    s: s5_settings::StateModel,
    v: String,
    size: u16,
    on: bool,
    section: SettingsSection,
)
    requires
        app.settings_state == Some(s),
    ensures
        ({
            let with = |t: s5_settings::StateModel|
                (AppModel { settings_state: Some(t), ..app }, Seq::<CommandModel>::empty());
            &&& app.chosen(AppMessage::SettingsSyncPathChanged(v)) == with(
                s5_settings::StateModel { sync_local_path: v@, saved: false, ..s },
            )
            &&& app.chosen(AppMessage::SettingsSyncFolderPicked(v)) == with(
                s5_settings::StateModel { sync_local_path: v@, saved: false, ..s },
            )
            &&& app.chosen(AppMessage::SettingsSyncQuickResult(QuickResult::Path(v))) == with(
                s5_settings::StateModel { sync_local_path: v@, saved: false, ..s },
            )
            &&& app.chosen(AppMessage::SettingsScrollbackChanged(v)) == with(
                s5_settings::StateModel { scrollback_lines: v@, saved: false, ..s },
            )
            &&& app.chosen(AppMessage::SettingsTerminalFontFamilyChanged(v)) == with(
                s5_settings::StateModel { terminal_font_family: v@, saved: false, ..s },
            )
            &&& app.chosen(AppMessage::SettingsTerminalFontSizeChanged(size)) == with(
                s5_settings::StateModel { terminal_font_size: size, saved: false, ..s },
            )
            &&& app.chosen(AppMessage::SettingsTerminalCursorBlinkChanged(on)) == with(
                s5_settings::StateModel { terminal_cursor_blink: on, saved: false, ..s },
            )
            &&& app.chosen(AppMessage::SettingsSectionChanged(section)) == with(
                s5_settings::StateModel { active_section: section, saved: false, error: None, ..s },
            )
            &&& app.chosen(AppMessage::SettingsSyncModeChanged(SyncMode::Local)) == with(
                s5_settings::StateModel { sync_mode: SyncMode::Local, saved: false, ..s },
            )
            &&& app.chosen(AppMessage::SettingsSyncModeChanged(SyncMode::Off)) == with(
                s5_settings::StateModel {
                    sync_mode: SyncMode::Off,
                    sync_local_path: Seq::empty(),
                    saved: false,
                    ..s
                },
            )
        }),
{
}

/// Saving sends what was chosen, and keeps the rest of the settings; terminals
/// look as was chosen from the moment when the settings are saved.
pub proof fn law_settings_are_saved_as_chosen(
    app: AppModel,
    s: s5_settings::StateModel,
    lines: nat,
)
    requires
        app.settings_state == Some(s),
        strings::number_up_to(s.scrollback_lines, usize::MAX as nat) == Some(lines),
    ensures
        ({
            let (after, asked) = app.step(AppMessage::SettingsSave);
            &&& asked.len() == 1
            &&& asked[0] matches CommandModel::Call { request: CallModel::UpdateSettings(v), .. }
                && v.terminal_font_family == s.terminal_font_family && v.terminal_cursor_blink
                == s.terminal_cursor_blink && v.scrollback_lines == lines && v.sync_local_path
                == (if s.sync_local_path.len() == 0 {
                None
            } else {
                Some(s.sync_local_path)
            }) && v.s3_endpoint == s.vault_settings.s3_endpoint && v.s3_bucket
                == s.vault_settings.s3_bucket && v.s3_access_key == s.vault_settings.s3_access_key
                && v.s3_secret_key == s.vault_settings.s3_secret_key
            &&& asked[0] matches CommandModel::Call { pending, .. } && pending
                == PendingModel::SettingsSaved
            &&& after.settings_state is Some && after.settings_state->0.saving
            &&& after.terminal_appearance == app.terminal_appearance
        }),
        ({
            let after = app.step(AppMessage::SettingsSaved).0;
            &&& after.settings_state is Some && after.settings_state->0.saved
            &&& !after.settings_state->0.saving
            &&& after.terminal_appearance.font_family == s.terminal_font_family
            &&& after.terminal_appearance.cursor_blink == s.terminal_cursor_blink
        }),
{
}

/// Choosing a language takes it at once, whatever it was before, and the choice
/// is kept; the choice of the system gives the language of the system.
pub proof fn law_language_is_taken_at_once(app: AppModel, choice: LangChoice, system: Lang)
    ensures
        ({
            let (after, asked) = app.step(
                AppMessage::SettingsLanguageChanged { choice, system },
            );
            &&& choice is ZhCn ==> after.lang == Lang::ZhCn
            &&& choice is En ==> after.lang == Lang::En
            &&& choice is System ==> after.lang == system
            &&& asked == seq![CommandModel::SaveLanguage(choice)]
            &&& after.hosts == app.hosts
            &&& after.active_tab_id == app.active_tab_id
            &&& app.settings_state is Some ==> after.settings_state is Some
                && after.settings_state->0.language == choice
            &&& forall|i: int|
                0 <= i < app.tabs.len() && app.tabs[i].kind is Settings ==> (
                #[trigger] after.tabs[i]).name == text::tr(after.lang, "main_tab_settings"@)
        }),
{
}

/// A backup is made under the passphrase of the vault where that was chosen,
/// and under the one that was typed otherwise, and goes to the chosen path.
pub proof fn law_backup_is_made_as_chosen(
    app: AppModel,
    s: s5_settings::StateModel,
    path: String,
    p: String,
)
    requires
        app.settings_state == Some(s),
    ensures
        app.backed_up(AppMessage::BackupExport).1 == seq![CommandModel::PickExportPath],
        ({
            let own = app.backed_up(AppMessage::BackupUseCurrentToggled(true)).0.backed_up(
                AppMessage::BackupExportTo(path),
            );
            &&& own.1.len() == 1
            &&& own.1[0] matches CommandModel::Call { request, pending } && request
                == (CallModel::Send {
                kind: "ExportBackup"@,
                body: JsonModel::Object(seq![("passphrase"@, JsonModel::Null)]),
            }) && pending == (PendingModel::Export { path: path@, lang: app.lang })
            &&& own.0.settings_state is Some && own.0.settings_state->0.backup.exporting
        }),
        ({
            let other = app.backed_up(AppMessage::BackupUseCurrentToggled(false)).0.backed_up(
                AppMessage::BackupPassphraseChanged(p),
            ).0.backed_up(AppMessage::BackupExportTo(path));
            &&& other.1.len() == 1
            &&& other.1[0] matches CommandModel::Call { request, pending } && request
                == (CallModel::Send {
                kind: "ExportBackup"@,
                body: JsonModel::Object(seq![("passphrase"@, JsonModel::Str(p@))]),
            }) && pending == (PendingModel::Export { path: path@, lang: app.lang })
        }),
{
}

/// The backup that is looked into is the chosen file under the typed
/// passphrase, and the one that is restored is, byte for byte, the one that was
/// looked into.
pub proof fn law_backup_is_restored_as_seen(
    app: AppModel,
    s: s5_settings::StateModel,
    path: String,
    p: String,
    data: Vec<u8>,
    count: usize,
    at: String,
    names: Vec<String>,
)
    requires
        app.settings_state == Some(s),
        path@.len() > 0,
        p@.len() > 0,
        data@.len() > 0,
    ensures
        ({
            let chosen = app.backed_up(AppMessage::BackupRestoreFileChosen(path)).0.backed_up(
                AppMessage::BackupRestorePassphraseChanged(p),
            ).0;
            let (looking, read) = chosen.backed_up(AppMessage::BackupRestorePreview);
            let seen = looking.backed_up(
                AppMessage::BackupRestorePreviewed {
                    data,
                    host_count: count,
                    modified_at: at,
                    host_names: names,
                },
            ).0;
            let (restoring, asked) = seen.backed_up(AppMessage::BackupRestoreConfirm);
            &&& chosen.backed_up(AppMessage::BackupRestoreConfirm).1.len() == 0
            &&& read == seq![CommandModel::ReadBackup { path: path@, passphrase: p@ }]
            &&& looking.settings_state is Some
                && looking.settings_state->0.backup.restore_validating
            &&& seen.settings_state is Some
                && !seen.settings_state->0.backup.restore_validating
            &&& seen.settings_state->0.backup.restore_preview == Some(
                s9_backup::PreviewModel {
                    host_count: count,
                    modified_at: at@,
                    host_names: strings::texts(names@),
                },
            )
            &&& asked.len() == 1
            &&& asked[0] matches CommandModel::Call {
                request: CallModel::Send { kind, body: JsonModel::Object(members) },
                pending,
            } && kind == "RestoreBackup"@ && pending == (PendingModel::Restore { lang: app.lang })
                && members.len() == 2 && members[1] == ("passphrase"@, JsonModel::Str(p@))
                && members[0].0 == "data"@ && is_byte_list(members[0].1, data@)
            &&& restoring.settings_state is Some && restoring.settings_state->0.backup.restoring
        }),
{
}

/// A restored backup gives its hosts and its settings, and the page for backups
/// tells so.
pub proof fn law_restored_backup_is_there(
    app: AppModel,
    hosts: Vec<HostItem>,
    settings: s5_settings::Loaded,
    warning: Option<String>,
)
    ensures
        ({
            let after = app.step(AppMessage::BackupRestored { hosts, settings, warning }).0;
            &&& after.hosts == s3_main::host_models(hosts@)
            &&& after.settings_state is Some
            &&& after.settings_state->0.vault_settings == settings.settings@
            &&& after.settings_state->0.active_section == SettingsSection::Backup
            &&& after.settings_state->0.backup.restore_result is Some
            &&& !after.settings_state->0.backup.restoring
        }),
        ({
            let after = app.step(AppMessage::SettingsLoaded(settings)).0;
            &&& after.settings_state is Some
            &&& after.settings_state->0.vault_settings == settings.settings@
            &&& after.hosts == app.hosts
        }),
{
}

} // verus!
