//! The update of the application: what each message does to it, and when it can
//! take the message.
use vstd::prelude::*;

use crate::app::message;
use crate::app::message::{
    AppMessage,
    CallModel,
    Command,
    CommandModel,
    DaemonCall,
    Pending,
    PendingModel,
    PushMsg,
};
use crate::app::tabs;
use crate::app::{AppModel, VidaApp};
use crate::screens::s3_main;
use crate::screens::{Screen, ScreenModel};
use crate::strings;
use crate::term::frame;

verus! {

/// A message did this to the application, and asked for this.
pub open spec fn gives(
    next: Option<(AppModel, Seq<CommandModel>)>,
    app: AppModel,
    commands: Seq<CommandModel>,
) -> bool {
    next == Some((app, commands))
}

/// A change without anything to do.
pub open spec fn quiet(app: AppModel) -> (AppModel, Seq<CommandModel>) {
    (app, Seq::empty())
}

/// A request whose reply tells the credential of a host.
pub open spec fn ask_credential(host_id: Seq<char>) -> Seq<CommandModel> {
    seq![
        CommandModel::Call {
            request: CallModel::RevealCredential { host_id },
            pending: PendingModel::Credential,
        },
    ]
}

impl AppModel {
    /// A terminal on a host opens from the panel for connecting.
    pub open spec fn quick_connect(self, host_id: Seq<char>) -> (AppModel, Seq<CommandModel>) {
        self.with_recent(host_id).open_ssh(host_id)
    }

    /// Terminals.
    pub open spec fn terminal_step(self, m: AppMessage) -> Option<(AppModel, Seq<CommandModel>)> {
        match m {
            AppMessage::OpenLocalTerminal => Some(self.open_local()),
            AppMessage::OpenSshTerminal(host_id) => Some(self.open_ssh(host_id@)),
            AppMessage::TerminalPush(push) => Some(match push {
                PushMsg::Frame { session_id, bytes } => quiet(
                    self.frame_pushed(session_id@, bytes@),
                ),
                PushMsg::SessionClosed { session_id, exit_code } => quiet(
                    self.session_closed(session_id@, exit_code),
                ),
            }),
            AppMessage::TerminalOpened { session_id, title, host_id } => {
                Some(self.terminal_opened(session_id@, title@, strings::opt_text(host_id)))
            },
            AppMessage::TerminalDisconnected { session_id, now } => {
                Some(self.disconnected(session_id@, now))
            },
            AppMessage::TerminalReconnected { mappings } => {
                Some(quiet(self.reconnected(message::mapping_models(mappings@))))
            },
            AppMessage::TerminalReconnectFailed(e) => Some(self.reconnect_failed(e@)),
            AppMessage::TerminalReconnectRetry => Some(self.retry_connection()),
            AppMessage::TerminalSetupError(e) => Some(quiet(self.setup_error(e@))),
            AppMessage::TerminalInput(data) => Some(self.input(data@)),
            AppMessage::TerminalPaste(data) => Some(self.paste(data@)),
            AppMessage::TerminalResize { cols, rows } => Some(self.resize(cols, rows)),
            AppMessage::TerminalScroll(lines) => Some((self, self.scroll(lines))),
            AppMessage::TerminalCursorBlink => Some(quiet(self.blink())),
            AppMessage::TerminalQueueFailed { tab_id, message: e } => {
                Some(quiet(self.queue_failed(tab_id@, e@)))
            },
            AppMessage::QuickConnectHost(host_id) => Some(self.quick_connect(host_id@)),
            _ => None,
        }
    }

    /// The connection, and the vault before it is open.
    pub open spec fn connection_step(self, m: AppMessage) -> Option<(AppModel, Seq<CommandModel>)> {
        match m {
            AppMessage::WsConnected => Some(self.ws_connected()),
            AppMessage::WsError(e) => Some(self.ws_error(e@)),
            AppMessage::RetryConnection => Some(self.retry_connection()),
            AppMessage::DaemonChecked { locked, vault_exists } => {
                Some(self.daemon_checked(locked, vault_exists))
            },
            AppMessage::SetupPassphraseChanged(p) => Some(quiet(self.setup_passphrase(p@))),
            AppMessage::SetupConfirmPassphraseChanged(p) => Some(quiet(self.setup_confirm(p@))),
            AppMessage::SetupRiskConfirmed(v) => Some(quiet(self.setup_risk(v))),
            AppMessage::SetupCreateVault => Some(self.create_vault()),
            AppMessage::SetupVaultCreated => Some((self, message::list_hosts())),
            AppMessage::UnlockPassphraseChanged(p) => Some(quiet(self.unlock_passphrase(p@))),
            AppMessage::UnlockRememberChanged(duration) => {
                Some(quiet(self.unlock_remember(duration)))
            },
            AppMessage::UnlockVault => Some(self.unlock_vault()),
            AppMessage::UnlockSuccess => Some((self, message::list_hosts())),
            AppMessage::UnlockFailed(e, category) => {
                Some(self.unlock_failed(e@, strings::opt_text(category)))
            },
            AppMessage::UnlockToastHide => Some(quiet(self.hide_unlock_toast())),
            AppMessage::LockVault => Some(self.lock_vault()),
            AppMessage::VaultLocked => Some(self.vault_locked()),
            _ => None,
        }
    }

    /// Tabs, hosts and credentials.
    pub open spec fn tab_step(self, m: AppMessage) -> Option<(AppModel, Seq<CommandModel>)> {
        match m {
            AppMessage::SwitchTab(tab_id) => Some(self.switch_tab(tab_id@)),
            AppMessage::OpenAddHostTab => Some(self.open_add_host()),
            AppMessage::OpenSettingsTab => Some(self.open_settings()),
            AppMessage::CloseTab(tab_id) => Some(self.close_tab(tab_id@)),
            AppMessage::ToggleConnectPanel => Some(self.toggle_panel()),
            AppMessage::CloseConnectPanel => {
                Some(quiet(AppModel { show_connect_panel: false, ..self }))
            },
            AppMessage::ConnectPanelSearch(query) => {
                Some(quiet(AppModel { connect_panel_search: query@, ..self }))
            },
            AppMessage::QuickAddHost => {
                Some(AppModel { show_connect_panel: false, ..self }.open_add_host())
            },
            AppMessage::HostsLoaded(hosts) => Some(self.hosts_loaded(s3_main::host_models(hosts@))),
            AppMessage::EditHost(host_id) => Some(self.edit_host(host_id@)),
            AppMessage::DeleteHostConfirm(host_id) => {
                Some(
                    (
                        self,
                        message::send_text(
                            "DeleteHost"@,
                            "host_id"@,
                            host_id@,
                            PendingModel::HostDeleted,
                        ),
                    ),
                )
            },
            AppMessage::DeleteHost => Some((self, message::list_hosts())),
            AppMessage::RevealCredential(host_id) => Some((self, ask_credential(host_id@))),
            AppMessage::ShowCredential(credential) => Some(self.show_credential(credential@)),
            AppMessage::HideCredential(token) => Some(quiet(self.credential_timeout(token))),
            AppMessage::CopyCredential(credential) => Some(self.copy_credential(credential@)),
            AppMessage::ClearClipboard(token) => Some(self.clear_clipboard(token)),
            _ => None,
        }
    }

    /// The fields of the editor.
    pub open spec fn field_step(self, m: AppMessage) -> Option<(AppModel, Seq<CommandModel>)> {
        match m {
            AppMessage::EditorNameChanged(v) => Some(quiet(self.editor_name(v@))),
            AppMessage::EditorHostChanged(v) => Some(quiet(self.editor_host(v@))),
            AppMessage::EditorUserChanged(v) => Some(quiet(self.editor_user(v@))),
            AppMessage::EditorPortChanged(v) => Some(quiet(self.editor_port(v@))),
            AppMessage::EditorAuthChanged(kind) => Some(quiet(self.editor_auth(kind))),
            AppMessage::EditorPasswordChanged(v) => Some(quiet(self.editor_password(v@))),
            AppMessage::EditorKeyPathChanged(v) => Some(quiet(self.editor_key_path(v@))),
            AppMessage::EditorKeyPassphraseChanged(v) => {
                Some(quiet(self.editor_key_passphrase(v@)))
            },
            AppMessage::EditorTagsChanged(v) => Some(quiet(self.editor_tags(v@))),
            AppMessage::EditorGroupChanged(v) => Some(quiet(self.editor_group(v@))),
            AppMessage::EditorNotesChanged(v) => Some(quiet(self.editor_notes(v@))),
            _ => None,
        }
    }

    /// The editor of a host.
    pub open spec fn editor_step(self, m: AppMessage) -> Option<(AppModel, Seq<CommandModel>)> {
        match m {
            AppMessage::EditorPickKeyFile => {
                Some((self, self.ask_while_editing(CommandModel::PickKeyFile)))
            },
            AppMessage::EditorKeyFilePicked(v) => Some(quiet(self.editor_key_picked(v@))),
            AppMessage::EditorImportKeyFile => {
                Some((self, self.ask_while_editing(CommandModel::ImportKeyFile)))
            },
            AppMessage::EditorKeyFileRead(file) => Some(quiet(self.key_file_read(file))),
            AppMessage::EditorFocusNext => Some((self, seq![CommandModel::FocusNext])),
            AppMessage::EditorFocusPrevious => Some((self, seq![CommandModel::FocusPrevious])),
            AppMessage::EditorSave => Some(self.editor_save()),
            AppMessage::EditorSaved => Some(self.close_editor()),
            AppMessage::EditorCancel => Some(self.close_editor()),
            _ => None,
        }
    }

    /// The fields of the settings.
    pub open spec fn choice_step(self, m: AppMessage) -> Option<(AppModel, Seq<CommandModel>)> {
        match m {
            AppMessage::SettingsSyncModeChanged(mode) => Some(quiet(self.settings_sync_mode(mode))),
            AppMessage::SettingsSyncPathChanged(path) => {
                Some(quiet(self.settings_sync_path(path@)))
            },
            AppMessage::SettingsScrollbackChanged(v) => Some(quiet(self.settings_scrollback(v@))),
            AppMessage::SettingsTerminalFontFamilyChanged(v) => {
                Some(quiet(self.settings_font_family(v@)))
            },
            AppMessage::SettingsTerminalFontSizeChanged(v) => {
                Some(quiet(self.settings_font_size(v)))
            },
            AppMessage::SettingsTerminalCursorBlinkChanged(v) => {
                Some(quiet(self.settings_cursor_blink(v)))
            },
            AppMessage::SettingsSectionChanged(section) => {
                Some(quiet(self.settings_section(section)))
            },
            _ => None,
        }
    }

    /// The settings.
    pub open spec fn settings_step(self, m: AppMessage) -> Option<(AppModel, Seq<CommandModel>)> {
        match m {
            AppMessage::SettingsLoaded(loaded) => Some(quiet(self.settings_loaded(loaded))),
            AppMessage::SettingsSyncPickFolder => {
                Some((self, self.ask_with_settings(CommandModel::PickSyncFolder)))
            },
            AppMessage::SettingsSyncFolderPicked(path) => {
                Some(quiet(self.settings_sync_path(path@)))
            },
            AppMessage::SettingsSyncQuickLocation(location) => {
                Some((self, self.ask_with_settings(CommandModel::FindQuickLocation(location))))
            },
            AppMessage::SettingsSyncQuickResult(result) => Some(quiet(self.quick_location(result))),
            AppMessage::SettingsLanguageChanged { choice, system } => {
                Some(self.language_changed(choice, system))
            },
            AppMessage::SettingsSave => Some(self.settings_save()),
            AppMessage::SettingsSaved => Some(quiet(self.settings_saved())),
            _ => None,
        }
    }

    /// Syncing.
    pub open spec fn sync_step(self, m: AppMessage) -> Option<(AppModel, Seq<CommandModel>)> {
        match m {
            AppMessage::SyncTriggered => Some(self.sync_triggered()),
            AppMessage::SyncCompleted(value) => Some(quiet(self.sync_completed(value@))),
            AppMessage::ConflictResolveLocal => {
                Some(
                    (
                        self,
                        message::send_text(
                            "ResolveConflict"@,
                            "choice"@,
                            "local"@,
                            PendingModel::ConflictResolved,
                        ),
                    ),
                )
            },
            AppMessage::ConflictResolveRemote => {
                Some(
                    (
                        self,
                        message::send_text(
                            "ResolveConflict"@,
                            "choice"@,
                            "remote"@,
                            PendingModel::ConflictResolved,
                        ),
                    ),
                )
            },
            AppMessage::ConflictResolved => Some(self.resolved()),
            AppMessage::ConflictFileAdopt => Some((self, self.conflict_file("AdoptConflictFile"@))),
            AppMessage::ConflictFileIgnore => {
                Some((self, self.conflict_file("IgnoreConflictFile"@)))
            },
            AppMessage::ConflictFileHandled => Some(self.resolved()),
            AppMessage::RemoteMissingAction(action) => {
                Some(
                    (
                        self,
                        message::send_text(
                            "HandleRemoteMissing"@,
                            "action"@,
                            action@,
                            PendingModel::RemoteMissingHandled,
                        ),
                    ),
                )
            },
            AppMessage::RemoteMissingHandled => Some(self.resolved()),
            _ => None,
        }
    }

    /// Backups.
    pub open spec fn backup_step(self, m: AppMessage) -> Option<(AppModel, Seq<CommandModel>)> {
        match m {
            AppMessage::BackupUseCurrentToggled(v) => Some(quiet(self.backup_use_current(v))),
            AppMessage::BackupPassphraseChanged(p) => Some(quiet(self.backup_passphrase(p@))),
            AppMessage::BackupExport => {
                Some((self, self.ask_with_settings(CommandModel::PickExportPath)))
            },
            AppMessage::BackupExportTo(path) => Some(self.export_to(path@)),
            AppMessage::BackupExported(shown) => Some(quiet(self.backup_exported(shown@))),
            AppMessage::BackupFailed(shown) => Some(quiet(self.backup_failed(shown@))),
            AppMessage::BackupRestoreChooseFile => Some((self, seq![CommandModel::PickBackup])),
            AppMessage::BackupRestoreFileChosen(path) => {
                Some(quiet(self.restore_file_chosen(path@)))
            },
            AppMessage::BackupRestorePassphraseChanged(p) => {
                Some(quiet(self.restore_passphrase(p@)))
            },
            AppMessage::BackupRestorePreview => Some(self.restore_preview()),
            AppMessage::BackupRestorePreviewed { data, host_count, modified_at, host_names } => {
                Some(
                    quiet(
                        self.restore_previewed(
                            data@,
                            host_count,
                            modified_at@,
                            strings::texts(host_names@),
                        ),
                    ),
                )
            },
            AppMessage::BackupRestoreConfirm => Some(self.restore_confirm()),
            AppMessage::BackupRestored { hosts, settings, warning } => {
                Some(
                    quiet(
                        self.restored(
                            s3_main::host_models(hosts@),
                            settings,
                            strings::opt_text(warning),
                        ),
                    ),
                )
            },
            AppMessage::BackupRestoreFailed(shown) => Some(quiet(self.restore_failed(shown@))),
            _ => None,
        }
    }

    /// What a message does to the application, and what it asks to be done.
    pub open spec fn step(self, m: AppMessage) -> (AppModel, Seq<CommandModel>) {
        match self.terminal_step(m) {
            Some(next) => next,
            None => match self.connection_step(m) {
                Some(next) => next,
                None => match self.tab_step(m) {
                    Some(next) => next,
                    None => match self.field_step(m) {
                        Some(next) => next,
                        None => match self.editor_step(m) {
                            Some(next) => next,
                            None => match self.choice_step(m) {
                                Some(next) => next,
                                None => match self.settings_step(m) {
                                    Some(next) => next,
                                    None => match self.sync_step(m) {
                                        Some(next) => next,
                                        None => match self.backup_step(m) {
                                            Some(next) => next,
                                            None => quiet(self),
                                        },
                                    },
                                },
                            },
                        },
                    },
                },
            },
        }
    }

    /// The application can take the message: a request to the daemon needs a
    /// connection, a token and a time have to be within the range of their
    /// numbers, and a frame has to fit its grid.
    pub open spec fn accepts(self, m: AppMessage) -> bool {
        match m {
            AppMessage::DaemonChecked { locked, vault_exists } => self.connected || locked
                || !vault_exists,
            AppMessage::SetupCreateVault => self.connected || !(self.screen is Setup),
            AppMessage::UnlockVault => self.connected || !(self.screen is Unlock),
            AppMessage::OpenSettingsTab => self.connected || self.settings_state is Some,
            AppMessage::HostsLoaded(_) => self.connected || self.settings_state is Some,
            AppMessage::EditorSave => self.connected || self.editor_state is None,
            AppMessage::SettingsSave => self.connected || self.settings_state is None,
            AppMessage::BackupExportTo(_) => self.connected || self.settings_state is None,
            AppMessage::BackupRestorePreview => self.connected || self.restore_preview().1.len()
                == 0,
            AppMessage::BackupRestoreConfirm => self.connected || self.restore_confirm().1.len()
                == 0,
            AppMessage::LockVault => self.connected || self.terminal_restore_pending,
            AppMessage::ConflictFileAdopt => self.connected || self.conflict_file(
                "AdoptConflictFile"@,
            ).len() == 0,
            AppMessage::ConflictFileIgnore => self.connected || self.conflict_file(
                "IgnoreConflictFile"@,
            ).len() == 0,
            AppMessage::SetupVaultCreated => self.connected,
            AppMessage::UnlockSuccess => self.connected,
            AppMessage::DeleteHostConfirm(_) => self.connected,
            AppMessage::DeleteHost => self.connected,
            AppMessage::RevealCredential(_) => self.connected,
            AppMessage::EditorSaved => self.connected,
            AppMessage::EditorCancel => self.connected,
            AppMessage::SyncTriggered => self.connected,
            AppMessage::ConflictResolveLocal => self.connected,
            AppMessage::ConflictResolveRemote => self.connected,
            AppMessage::ConflictResolved => self.connected,
            AppMessage::ConflictFileHandled => self.connected,
            AppMessage::RemoteMissingAction(_) => self.connected,
            AppMessage::RemoteMissingHandled => self.connected,
            AppMessage::SwitchTab(_) => self.cred_hide_token < u64::MAX,
            AppMessage::ShowCredential(_) => self.cred_hide_token < u64::MAX,
            AppMessage::CopyCredential(_) => self.clipboard_token < u64::MAX,
            AppMessage::TerminalDisconnected { session_id, now } => !self.runs(session_id@)
                || self.cooling_down(now) || now + 10_000 <= u64::MAX,
            AppMessage::TerminalPush(PushMsg::Frame { session_id, bytes }) => self.takes_frame(
                session_id@,
                bytes@,
            ),
            _ => true,
        }
    }
}

impl VidaApp {
    /// Whether the application can take a message now.
    pub fn accepts(&self, m: &AppMessage) -> (res: bool)
        requires
            self@.wf(),
        ensures
            res == self@.accepts(*m),
    {
        match m {
            AppMessage::DaemonChecked { locked, vault_exists } => self.connected || *locked
                || !*vault_exists,
            AppMessage::SetupCreateVault => {
                self.connected || !matches!(self.screen, Screen::Setup(_))
            },
            AppMessage::UnlockVault => self.connected || !matches!(self.screen, Screen::Unlock(_)),
            AppMessage::OpenSettingsTab => self.connected || self.settings_state.is_some(),
            AppMessage::HostsLoaded(_) => self.connected || self.settings_state.is_some(),
            AppMessage::EditorSave => self.connected || self.editor_state.is_none(),
            AppMessage::SettingsSave => self.connected || self.settings_state.is_none(),
            AppMessage::BackupExportTo(_) => self.connected || self.settings_state.is_none(),
            AppMessage::BackupRestorePreview => self.connected || match &self.settings_state {
                Some(s) => s.backup.restore_path.as_str().is_empty()
                    || s.backup.restore_passphrase.as_str().is_empty(),
                None => true,
            },
            AppMessage::BackupRestoreConfirm => self.connected || match &self.settings_state {
                Some(s) => s.backup.restore_preview.is_none() || s.backup.restore_data.len() == 0,
                None => true,
            },
            AppMessage::LockVault => self.connected || self.terminal_restore_pending,
            AppMessage::ConflictFileAdopt => self.connected || !self.has_conflict_file(),
            AppMessage::ConflictFileIgnore => self.connected || !self.has_conflict_file(),
            AppMessage::SetupVaultCreated => self.connected,
            AppMessage::UnlockSuccess => self.connected,
            AppMessage::DeleteHostConfirm(_) => self.connected,
            AppMessage::DeleteHost => self.connected,
            AppMessage::RevealCredential(_) => self.connected,
            AppMessage::EditorSaved => self.connected,
            AppMessage::EditorCancel => self.connected,
            AppMessage::SyncTriggered => self.connected,
            AppMessage::ConflictResolveLocal => self.connected,
            AppMessage::ConflictResolveRemote => self.connected,
            AppMessage::ConflictResolved => self.connected,
            AppMessage::ConflictFileHandled => self.connected,
            AppMessage::RemoteMissingAction(_) => self.connected,
            AppMessage::RemoteMissingHandled => self.connected,
            AppMessage::SwitchTab(_) => self.cred_hide_token < u64::MAX,
            AppMessage::ShowCredential(_) => self.cred_hide_token < u64::MAX,
            AppMessage::CopyCredential(_) => self.clipboard_token < u64::MAX,
            AppMessage::TerminalDisconnected { session_id, now } => {
                let cooling: bool = match self.terminal_reconnect_cooldown {
                    Some(until) => *now < until,
                    None => false,
                };
                *now <= u64::MAX - 10_000 || cooling || !self.has_running(session_id.as_str())
            },
            AppMessage::TerminalPush(PushMsg::Frame { session_id, bytes }) => self.fits_frame(
                session_id.as_str(),
                bytes,
            ),
            _ => true,
        }
    }

    fn has_conflict_file(&self) -> (res: bool)
        ensures
            res == (self@.screen matches ScreenModel::ConflictFile(s) && s.files.len() > 0),
    {
        match &self.screen {
            Screen::ConflictFile(s) => s.files.len() > 0,
            _ => false,
        }
    }

    fn fits_frame(&self, session_id: &str, bytes: &Vec<u8>) -> (res: bool)
        requires
            self@.wf(),
        ensures
            res == self@.takes_frame(session_id@, bytes@),
    {
        match tabs::find_session(&self.terminal_sessions, session_id) {
            Some(i) => match frame::decode_frame(bytes.as_slice()) {
                Some(decoded) => {
                    proof {
                        assert(self@.terminal_sessions[i as int].session
                            == self.terminal_sessions@[i as int].session@);
                    }
                    self.terminal_sessions[i].session.grid.fits(&decoded)
                },
                None => true,
            },
            None => true,
        }
    }

    /// Terminals. Another message is handed back.
    fn terminal_message(&mut self, m: AppMessage) -> (res: Result<Vec<Command>, AppMessage>)
        requires
            old(self)@.wf(),
            old(self)@.accepts(m),
        ensures
            final(self)@.wf(),
            match res {
                Ok(commands) => gives(
                    old(self)@.terminal_step(m),
                    final(self)@,
                    message::command_models(commands@),
                ),
                Err(other) => old(self)@.terminal_step(m) is None && other == m && final(self)@ == old(
                    self,
                )@,
            },
    {
        let commands = match m {
            AppMessage::OpenLocalTerminal => self.open_local(),
            AppMessage::OpenSshTerminal(host_id) => self.open_ssh(host_id),
            AppMessage::TerminalPush(push) => {
                match push {
                PushMsg::Frame { session_id, bytes } => {
                    self.frame_pushed(session_id.as_str(), &bytes)
                },
                PushMsg::SessionClosed { session_id, exit_code } => {
                    self.session_closed(session_id.as_str(), exit_code)
                },
            }
                message::nothing()
            },
            AppMessage::TerminalOpened { session_id, title, host_id } => {
                self.terminal_opened(session_id, title, host_id)
            },
            AppMessage::TerminalDisconnected { session_id, now } => {
                self.disconnected(session_id.as_str(), now)
            },
            AppMessage::TerminalReconnected { mappings } => {
                self.reconnected(&mappings);
                message::nothing()
            },
            AppMessage::TerminalReconnectFailed(e) => self.reconnect_failed(e),
            AppMessage::TerminalReconnectRetry => self.retry_connection(),
            AppMessage::TerminalSetupError(e) => {
                self.setup_error(e);
                message::nothing()
            },
            AppMessage::TerminalInput(data) => self.input(&data),
            AppMessage::TerminalPaste(data) => self.paste(&data),
            AppMessage::TerminalResize { cols, rows } => self.resize(cols, rows),
            AppMessage::TerminalScroll(lines) => self.scroll(lines),
            AppMessage::TerminalCursorBlink => {
                self.blink();
                message::nothing()
            },
            AppMessage::TerminalQueueFailed { tab_id, message: e } => {
                self.queue_failed(tab_id.as_str(), e);
                message::nothing()
            },
            AppMessage::QuickConnectHost(host_id) => {
                self.remember_recent(host_id.as_str());
                self.open_ssh(host_id)
            },
            other => return Err(other),
        };
        Ok(commands)
    }

    /// The connection, and the vault before it is open. Another message is handed back.
    fn connection_message(&mut self, m: AppMessage) -> (res: Result<Vec<Command>, AppMessage>)
        requires
            old(self)@.wf(),
            old(self)@.accepts(m),
        ensures
            final(self)@.wf(),
            match res {
                Ok(commands) => gives(
                    old(self)@.connection_step(m),
                    final(self)@,
                    message::command_models(commands@),
                ),
                Err(other) => old(self)@.connection_step(m) is None && other == m && final(self)@ == old(
                    self,
                )@,
            },
    {
        let commands = match m {
            AppMessage::WsConnected => self.connect_done(),
            AppMessage::WsError(e) => self.connection_failed(e),
            AppMessage::RetryConnection => self.retry_connection(),
            AppMessage::DaemonChecked { locked, vault_exists } => {
                self.daemon_checked(locked, vault_exists)
            },
            AppMessage::SetupPassphraseChanged(p) => {
                self.setup_passphrase(p);
                message::nothing()
            },
            AppMessage::SetupConfirmPassphraseChanged(p) => {
                self.setup_confirm(p);
                message::nothing()
            },
            AppMessage::SetupRiskConfirmed(v) => {
                self.setup_risk(v);
                message::nothing()
            },
            AppMessage::SetupCreateVault => self.create_vault(),
            AppMessage::SetupVaultCreated => message::ask_hosts(),
            AppMessage::UnlockPassphraseChanged(p) => {
                self.unlock_passphrase(p);
                message::nothing()
            },
            AppMessage::UnlockRememberChanged(duration) => {
                self.unlock_remember(duration);
                message::nothing()
            },
            AppMessage::UnlockVault => self.unlock_vault(),
            AppMessage::UnlockSuccess => message::ask_hosts(),
            AppMessage::UnlockFailed(e, category) => self.unlock_failed(e, category),
            AppMessage::UnlockToastHide => {
                self.hide_unlock_toast();
                message::nothing()
            },
            AppMessage::LockVault => self.lock_vault(),
            AppMessage::VaultLocked => self.vault_locked(),
            other => return Err(other),
        };
        Ok(commands)
    }

    /// Tabs, hosts and credentials. Another message is handed back.
    fn tab_message(&mut self, m: AppMessage) -> (res: Result<Vec<Command>, AppMessage>)
        requires
            old(self)@.wf(),
            old(self)@.accepts(m),
        ensures
            final(self)@.wf(),
            match res {
                Ok(commands) => gives(
                    old(self)@.tab_step(m),
                    final(self)@,
                    message::command_models(commands@),
                ),
                Err(other) => old(self)@.tab_step(m) is None && other == m && final(self)@ == old(
                    self,
                )@,
            },
    {
        let commands = match m {
            AppMessage::SwitchTab(tab_id) => self.switch_tab(tab_id),
            AppMessage::OpenAddHostTab => self.open_add_host(),
            AppMessage::OpenSettingsTab => self.open_settings(),
            AppMessage::CloseTab(tab_id) => self.close_tab(tab_id.as_str()),
            AppMessage::ToggleConnectPanel => self.toggle_panel(),
            AppMessage::CloseConnectPanel => {
                self.show_connect_panel = false;
                message::nothing()
            },
            AppMessage::ConnectPanelSearch(query) => {
                self.connect_panel_search = query;
                message::nothing()
            },
            AppMessage::QuickAddHost => {
                self.show_connect_panel = false;
                self.open_add_host()
            },
            AppMessage::HostsLoaded(hosts) => self.load_hosts(hosts),
            AppMessage::EditHost(host_id) => self.edit_host(host_id.as_str()),
            AppMessage::DeleteHostConfirm(host_id) => {
                message::ask_with_text(
                    "DeleteHost",
                    "host_id",
                    host_id.as_str(),
                    Pending::HostDeleted,
                )
            },
            AppMessage::DeleteHost => message::ask_hosts(),
            AppMessage::RevealCredential(host_id) => {
                message::one(
                    Command::Call {
                        request: DaemonCall::RevealCredential { host_id },
                        pending: Pending::Credential,
                    },
                )
            },
            AppMessage::ShowCredential(credential) => self.show_credential(credential),
            AppMessage::HideCredential(token) => {
                self.credential_timeout(token);
                message::nothing()
            },
            AppMessage::CopyCredential(credential) => self.copy_credential(credential),
            AppMessage::ClearClipboard(token) => self.clear_clipboard(token),
            other => return Err(other),
        };
        Ok(commands)
    }

    /// The fields of the editor. Another message is handed back.
    fn field_message(&mut self, m: AppMessage) -> (res: Result<Vec<Command>, AppMessage>)
        requires
            old(self)@.wf(),
            old(self)@.accepts(m),
        ensures
            final(self)@.wf(),
            match res {
                Ok(commands) => gives(
                    old(self)@.field_step(m),
                    final(self)@,
                    message::command_models(commands@),
                ),
                Err(other) => old(self)@.field_step(m) is None && other == m && final(self)@ == old(
                    self,
                )@,
            },
    {
        let commands = match m {
            AppMessage::EditorNameChanged(v) => {
                self.editor_name(v);
                message::nothing()
            },
            AppMessage::EditorHostChanged(v) => {
                self.editor_host(v);
                message::nothing()
            },
            AppMessage::EditorUserChanged(v) => {
                self.editor_user(v);
                message::nothing()
            },
            AppMessage::EditorPortChanged(v) => {
                self.editor_port(v);
                message::nothing()
            },
            AppMessage::EditorAuthChanged(kind) => {
                self.editor_auth(kind);
                message::nothing()
            },
            AppMessage::EditorPasswordChanged(v) => {
                self.editor_password(v);
                message::nothing()
            },
            AppMessage::EditorKeyPathChanged(v) => {
                self.editor_key_path(v);
                message::nothing()
            },
            AppMessage::EditorKeyPassphraseChanged(v) => {
                self.editor_key_passphrase(v);
                message::nothing()
            },
            AppMessage::EditorTagsChanged(v) => {
                self.editor_tags(v);
                message::nothing()
            },
            AppMessage::EditorGroupChanged(v) => {
                self.editor_group(v);
                message::nothing()
            },
            AppMessage::EditorNotesChanged(v) => {
                self.editor_notes(v);
                message::nothing()
            },
            other => return Err(other),
        };
        Ok(commands)
    }

    /// The editor of a host. Another message is handed back.
    fn editor_message(&mut self, m: AppMessage) -> (res: Result<Vec<Command>, AppMessage>)
        requires
            old(self)@.wf(),
            old(self)@.accepts(m),
        ensures
            final(self)@.wf(),
            match res {
                Ok(commands) => gives(
                    old(self)@.editor_step(m),
                    final(self)@,
                    message::command_models(commands@),
                ),
                Err(other) => old(self)@.editor_step(m) is None && other == m && final(self)@ == old(
                    self,
                )@,
            },
    {
        let commands = match m {
            AppMessage::EditorPickKeyFile => self.ask_while_editing(Command::PickKeyFile),
            AppMessage::EditorKeyFilePicked(v) => {
                self.editor_key_picked(v);
                message::nothing()
            },
            AppMessage::EditorImportKeyFile => self.ask_while_editing(Command::ImportKeyFile),
            AppMessage::EditorKeyFileRead(file) => {
                self.key_file_read(file);
                message::nothing()
            },
            AppMessage::EditorFocusNext => message::one(Command::FocusNext),
            AppMessage::EditorFocusPrevious => message::one(Command::FocusPrevious),
            AppMessage::EditorSave => self.editor_save(),
            AppMessage::EditorSaved => self.close_editor(),
            AppMessage::EditorCancel => self.close_editor(),
            other => return Err(other),
        };
        Ok(commands)
    }

    /// The fields of the settings. Another message is handed back.
    fn choice_message(&mut self, m: AppMessage) -> (res: Result<Vec<Command>, AppMessage>)
        requires
            old(self)@.wf(),
            old(self)@.accepts(m),
        ensures
            final(self)@.wf(),
            match res {
                Ok(commands) => gives(
                    old(self)@.choice_step(m),
                    final(self)@,
                    message::command_models(commands@),
                ),
                Err(other) => old(self)@.choice_step(m) is None && other == m && final(self)@ == old(
                    self,
                )@,
            },
    {
        let commands = match m {
            AppMessage::SettingsSyncModeChanged(mode) => {
                self.settings_sync_mode(mode);
                message::nothing()
            },
            AppMessage::SettingsSyncPathChanged(path) => {
                self.settings_sync_path(path);
                message::nothing()
            },
            AppMessage::SettingsScrollbackChanged(v) => {
                self.settings_scrollback(v);
                message::nothing()
            },
            AppMessage::SettingsTerminalFontFamilyChanged(v) => {
                self.settings_font_family(v);
                message::nothing()
            },
            AppMessage::SettingsTerminalFontSizeChanged(v) => {
                self.settings_font_size(v);
                message::nothing()
            },
            AppMessage::SettingsTerminalCursorBlinkChanged(v) => {
                self.settings_cursor_blink(v);
                message::nothing()
            },
            AppMessage::SettingsSectionChanged(section) => {
                self.settings_section(section);
                message::nothing()
            },
            other => return Err(other),
        };
        Ok(commands)
    }

    /// The settings. Another message is handed back.
    fn settings_message(&mut self, m: AppMessage) -> (res: Result<Vec<Command>, AppMessage>)
        requires
            old(self)@.wf(),
            old(self)@.accepts(m),
        ensures
            final(self)@.wf(),
            match res {
                Ok(commands) => gives(
                    old(self)@.settings_step(m),
                    final(self)@,
                    message::command_models(commands@),
                ),
                Err(other) => old(self)@.settings_step(m) is None && other == m && final(self)@ == old(
                    self,
                )@,
            },
    {
        let commands = match m {
            AppMessage::SettingsLoaded(loaded) => {
                self.settings_loaded(loaded);
                message::nothing()
            },
            AppMessage::SettingsSyncPickFolder => self.ask_with_settings(Command::PickSyncFolder),
            AppMessage::SettingsSyncFolderPicked(path) => {
                self.settings_sync_path(path);
                message::nothing()
            },
            AppMessage::SettingsSyncQuickLocation(location) => {
                self.ask_with_settings(Command::FindQuickLocation(location))
            },
            AppMessage::SettingsSyncQuickResult(result) => {
                self.quick_location(result);
                message::nothing()
            },
            AppMessage::SettingsLanguageChanged { choice, system } => {
                self.language_changed(choice, system)
            },
            AppMessage::SettingsSave => self.settings_save(),
            AppMessage::SettingsSaved => {
                self.settings_saved();
                message::nothing()
            },
            other => return Err(other),
        };
        Ok(commands)
    }

    /// Syncing. Another message is handed back.
    fn sync_message(&mut self, m: AppMessage) -> (res: Result<Vec<Command>, AppMessage>)
        requires
            old(self)@.wf(),
            old(self)@.accepts(m),
        ensures
            final(self)@.wf(),
            match res {
                Ok(commands) => gives(
                    old(self)@.sync_step(m),
                    final(self)@,
                    message::command_models(commands@),
                ),
                Err(other) => old(self)@.sync_step(m) is None && other == m && final(self)@ == old(
                    self,
                )@,
            },
    {
        let commands = match m {
            AppMessage::SyncTriggered => self.sync_triggered(),
            AppMessage::SyncCompleted(value) => {
                self.sync_completed(&value);
                message::nothing()
            },
            AppMessage::ConflictResolveLocal => {
                message::ask_with_text(
                    "ResolveConflict",
                    "choice",
                    "local",
                    Pending::ConflictResolved,
                )
            },
            AppMessage::ConflictResolveRemote => {
                message::ask_with_text(
                    "ResolveConflict",
                    "choice",
                    "remote",
                    Pending::ConflictResolved,
                )
            },
            AppMessage::ConflictResolved => self.resolved(),
            AppMessage::ConflictFileAdopt => self.conflict_file("AdoptConflictFile"),
            AppMessage::ConflictFileIgnore => self.conflict_file("IgnoreConflictFile"),
            AppMessage::ConflictFileHandled => self.resolved(),
            AppMessage::RemoteMissingAction(action) => {
                message::ask_with_text(
                    "HandleRemoteMissing",
                    "action",
                    action.as_str(),
                    Pending::RemoteMissingHandled,
                )
            },
            AppMessage::RemoteMissingHandled => self.resolved(),
            other => return Err(other),
        };
        Ok(commands)
    }

    /// Backups. Another message is handed back.
    fn backup_message(&mut self, m: AppMessage) -> (res: Result<Vec<Command>, AppMessage>)
        requires
            old(self)@.wf(),
            old(self)@.accepts(m),
        ensures
            final(self)@.wf(),
            match res {
                Ok(commands) => gives(
                    old(self)@.backup_step(m),
                    final(self)@,
                    message::command_models(commands@),
                ),
                Err(other) => old(self)@.backup_step(m) is None && other == m && final(self)@ == old(
                    self,
                )@,
            },
    {
        let commands = match m {
            AppMessage::BackupUseCurrentToggled(v) => {
                self.backup_use_current(v);
                message::nothing()
            },
            AppMessage::BackupPassphraseChanged(p) => {
                self.backup_passphrase(p);
                message::nothing()
            },
            AppMessage::BackupExport => self.ask_with_settings(Command::PickExportPath),
            AppMessage::BackupExportTo(path) => self.export_to(path),
            AppMessage::BackupExported(shown) => {
                self.backup_exported(shown);
                message::nothing()
            },
            AppMessage::BackupFailed(shown) => {
                self.backup_failed(shown);
                message::nothing()
            },
            AppMessage::BackupRestoreChooseFile => message::one(Command::PickBackup),
            AppMessage::BackupRestoreFileChosen(path) => {
                self.restore_file_chosen(path);
                message::nothing()
            },
            AppMessage::BackupRestorePassphraseChanged(p) => {
                self.restore_passphrase(p);
                message::nothing()
            },
            AppMessage::BackupRestorePreview => self.restore_preview(),
            AppMessage::BackupRestorePreviewed { data, host_count, modified_at, host_names } => {
                self.restore_previewed(data, host_count, modified_at, host_names);
                message::nothing()
            },
            AppMessage::BackupRestoreConfirm => self.restore_confirm(),
            AppMessage::BackupRestored { hosts, settings, warning } => {
                self.restored(hosts, settings, warning);
                message::nothing()
            },
            AppMessage::BackupRestoreFailed(shown) => {
                self.restore_failed(shown);
                message::nothing()
            },
            other => return Err(other),
        };
        Ok(commands)
    }

    /// What a message does to the application, and what it asks to be done.
    pub fn update(&mut self, m: AppMessage) -> (res: Vec<Command>)
        requires
            old(self)@.wf(),
            old(self)@.accepts(m),
        ensures
            final(self)@.wf(),
            (final(self)@, message::command_models(res@)) == old(self)@.step(m),
    {
        match self.terminal_message(m) {
            Ok(commands) => commands,
            Err(m) => match self.connection_message(m) {
                Ok(commands) => commands,
                Err(m) => match self.tab_message(m) {
                    Ok(commands) => commands,
                    Err(m) => match self.field_message(m) {
                        Ok(commands) => commands,
                        Err(m) => match self.editor_message(m) {
                            Ok(commands) => commands,
                            Err(m) => match self.choice_message(m) {
                                Ok(commands) => commands,
                                Err(m) => match self.settings_message(m) {
                                    Ok(commands) => commands,
                                    Err(m) => match self.sync_message(m) {
                                        Ok(commands) => commands,
                                        Err(m) => match self.backup_message(m) {
                                            Ok(commands) => commands,
                                            Err(_) => message::nothing(),
                                        },
                                    },
                                },
                            },
                        },
                    },
                },
            },
        }
    }
}

} // verus!
