//! Backups: exporting, looking into and restoring them.
use vstd::prelude::*;

use crate::app::hosts;
use crate::app::message;
use crate::app::message::{
    CallModel,
    Command,
    CommandModel,
    DaemonCall,
    Pending,
    PendingModel,
};
use crate::app::{AppModel, VidaApp};
use crate::json;
use crate::json::{Json, JsonModel};
use crate::screens::s3_main;
use crate::screens::s3_main::{HostItem, HostModel};
use crate::screens::s5_settings;
use crate::screens::s5_settings::{Loaded, SettingsSection};
use crate::screens::s9_backup;
use crate::screens::s9_backup::{RestorePreview, StateModel};
use crate::strings;
use crate::text;
use crate::text::{SpanModel, Text};

verus! {

/// A request that asks for a backup: under the passphrase of the vault, or
/// under another one.
pub open spec fn export_request(passphrase: Option<Seq<char>>) -> JsonModel {
    JsonModel::Object(seq![("passphrase"@, json::text_or_null(passphrase))])
}

/// A request with the bytes of a backup and its passphrase.
pub open spec fn backup_request(data: Seq<u8>, passphrase: Seq<char>) -> JsonModel {
    JsonModel::Object(
        seq![("data"@, hosts::byte_array(data)), ("passphrase"@, JsonModel::Str(passphrase))],
    )
}

/// A request with the bytes of a backup and its passphrase.
pub fn backup_body(data: &Vec<u8>, passphrase: &str) -> (res: Json)
    ensures
        res@ == backup_request(data@, passphrase@),
{
    let mut members: Vec<(String, Json)> = Vec::new();
    members.push(("data".to_string(), hosts::bytes_json(data)));
    members.push(("passphrase".to_string(), Json::Str(passphrase.to_string())));
    proof {
        json::lemma_object(members);
        assert(json::member_models(members@) =~= backup_request(
            data@,
            passphrase@,
        )->Object_0);
    }
    Json::Object(members)
}

impl AppModel {
    /// The application with another state of the backup page.
    pub open spec fn with_backup(self, f: spec_fn(StateModel) -> StateModel) -> AppModel {
        self.with_settings(
            |s: s5_settings::StateModel| s5_settings::StateModel { backup: f(s.backup), ..s },
        )
    }

    /// A backup is made, and goes to a path.
    pub open spec fn export_to(self, path: Seq<char>) -> (AppModel, Seq<CommandModel>) {
        match self.settings_state {
            Some(s) => (
                self.with_backup(
                    |b: StateModel| StateModel { exporting: true, error: None, result: None, ..b },
                ),
                seq![
                    CommandModel::Call {
                        request: CallModel::Send {
                            kind: "ExportBackup"@,
                            body: export_request(
                                if s.backup.use_current {
                                    None
                                } else {
                                    Some(s.backup.export_passphrase)
                                },
                            ),
                        },
                        pending: PendingModel::Export { path, lang: self.lang },
                    },
                ],
            ),
            None => (self, Seq::empty()),
        }
    }

    /// The backup that was chosen is read and looked into.
    pub open spec fn restore_preview(self) -> (AppModel, Seq<CommandModel>) {
        match self.settings_state {
            Some(s) => if s.backup.restore_path.len() == 0 || s.backup.restore_passphrase.len()
                == 0 {
                (self, Seq::empty())
            } else {
                (
                    self.with_backup(
                        |b: StateModel| StateModel { restore_validating: true, ..b.unvalidated() },
                    ),
                    seq![
                        CommandModel::ReadBackup {
                            path: s.backup.restore_path,
                            passphrase: s.backup.restore_passphrase,
                        },
                    ],
                )
            },
            None => (self, Seq::empty()),
        }
    }

    /// The bytes that were looked into are restored, under the passphrase of
    /// the page.
    pub open spec fn restore_confirm(self) -> (AppModel, Seq<CommandModel>) {
        match self.settings_state {
            Some(s) => if s.backup.restore_preview is None || s.backup.restore_data.len() == 0 {
                (self, Seq::empty())
            } else {
                (
                    self.with_backup(
                        |b: StateModel|
                            StateModel {
                                restoring: true,
                                restore_error: None,
                                restore_result: None,
                                ..b
                            },
                    ),
                    seq![
                        CommandModel::Call {
                            request: CallModel::Send {
                                kind: "RestoreBackup"@,
                                body: backup_request(
                                    s.backup.restore_data,
                                    s.backup.restore_passphrase,
                                ),
                            },
                            pending: PendingModel::Restore { lang: self.lang },
                        },
                    ],
                )
            },
            None => (self, Seq::empty()),
        }
    }

    /// A backup was restored: its hosts and settings are there, and the page
    /// tells so.
    pub open spec fn restored(
        self,
        hosts: Seq<HostModel>,
        loaded: Loaded,
        warning: Option<Seq<char>>,
    ) -> AppModel {
        let state = s5_settings::StateModel::of(loaded);
        let done = text::tr(self.lang, "backup_restore_success"@);
        AppModel {
            terminal_appearance: state.appearance(),
            settings_state: Some(
                s5_settings::StateModel {
                    active_section: SettingsSection::Backup,
                    backup: StateModel {
                        restore_result: Some(
                            match warning {
                                Some(w) => done + text::plain(" "@) + text::plain(w),
                                None => done,
                            },
                        ),
                        ..state.backup
                    },
                    ..state
                },
            ),
            ..self.set_hosts(hosts)
        }
    }

    pub open spec fn backup_use_current(self, v: bool) -> AppModel {
        self.with_backup(
            |b: StateModel| StateModel { use_current: v, ..b },
        )
    }

    pub open spec fn backup_passphrase(self, p: Seq<char>) -> AppModel {
        self.with_backup(
            |b: StateModel| StateModel { export_passphrase: p, ..b },
        )
    }

    pub open spec fn backup_exported(self, message: Seq<SpanModel>) -> AppModel {
        self.with_backup(
            |b: StateModel| StateModel { exporting: false, result: Some(message), ..b },
        )
    }

    pub open spec fn backup_failed(self, message: Seq<SpanModel>) -> AppModel {
        self.with_backup(
            |b: StateModel| StateModel { exporting: false, error: Some(message), ..b },
        )
    }

    pub open spec fn restore_file_chosen(self, path: Seq<char>) -> AppModel {
        self.with_backup(
            |b: StateModel| StateModel { restore_path: path, ..b.unvalidated() },
        )
    }

    pub open spec fn restore_passphrase(self, passphrase: Seq<char>) -> AppModel {
        self.with_backup(
            |b: StateModel| StateModel { restore_passphrase: passphrase, ..b.unvalidated() },
        )
    }

    pub open spec fn restore_previewed(self, data: Seq<u8>, host_count: usize, modified_at: Seq<char>, host_names: Seq<Seq<char>>) -> AppModel {
        self.with_backup(
            |b: StateModel|
                StateModel {
                    restore_validating: false,
                    restore_data: data,
                    restore_preview: Some(
                        s9_backup::PreviewModel {
                            host_count,
                            modified_at,
                            host_names,
                        },
                    ),
                    ..b
                },
        )
    }

    pub open spec fn restore_failed(self, message: Seq<SpanModel>) -> AppModel {
        self.with_backup(
            |b: StateModel|
                StateModel {
                    restore_validating: false,
                    restoring: false,
                    restore_error: Some(message),
                    ..b
                },
        )
    }
}

impl VidaApp {
    pub fn backup_use_current(&mut self, v: bool)
        ensures
            final(self)@ == old(self)@.backup_use_current(v),
    {
        if let Some(s) = &mut self.settings_state {
            s.backup.use_current = v;
        }
    }

    pub fn backup_passphrase(&mut self, p: String)
        ensures
            final(self)@ == old(self)@.backup_passphrase(p@),
    {
        if let Some(s) = &mut self.settings_state {
            s.backup.export_passphrase = p;
        }
    }

    pub fn export_to(&mut self, path: String) -> (res: Vec<Command>)
        ensures
            (final(self)@, message::command_models(res@)) == old(self)@.export_to(path@),
    {
        let lang = self.i18n.lang;
        if let Some(s) = &mut self.settings_state {
            s.backup.exporting = true;
            s.backup.error = None;
            s.backup.result = None;
            let passphrase: Json = if s.backup.use_current {
                Json::Null
            } else {
                Json::Str(s.backup.export_passphrase.clone())
            };
            let mut members: Vec<(String, Json)> = Vec::new();
            members.push(("passphrase".to_string(), passphrase));
            proof {
                json::lemma_object(members);
                assert(json::member_models(members@) =~= seq![("passphrase"@, passphrase@)]);
            }
            message::one(
                Command::Call {
                    request: DaemonCall::Send {
                        kind: "ExportBackup".to_string(),
                        body: Json::Object(members),
                    },
                    pending: Pending::Export { path, lang },
                },
            )
        } else {
            message::nothing()
        }
    }

    pub fn backup_exported(&mut self, message: Text)
        ensures
            final(self)@ == old(self)@.backup_exported(message@),
    {
        if let Some(s) = &mut self.settings_state {
            s.backup.exporting = false;
            s.backup.result = Some(message);
        }
    }

    pub fn backup_failed(&mut self, message: Text)
        ensures
            final(self)@ == old(self)@.backup_failed(message@),
    {
        if let Some(s) = &mut self.settings_state {
            s.backup.exporting = false;
            s.backup.error = Some(message);
        }
    }

    pub fn restore_file_chosen(&mut self, path: String)
        ensures
            final(self)@ == old(self)@.restore_file_chosen(path@),
    {
        if let Some(s) = &mut self.settings_state {
            s.backup.restore_path = path;
            s.backup.forget_validation();
        }
    }

    pub fn restore_passphrase(&mut self, passphrase: String)
        ensures
            final(self)@ == old(self)@.restore_passphrase(passphrase@),
    {
        if let Some(s) = &mut self.settings_state {
            s.backup.restore_passphrase = passphrase;
            s.backup.forget_validation();
        }
    }

    pub fn restore_preview(&mut self) -> (res: Vec<Command>)
        ensures
            (final(self)@, message::command_models(res@)) == old(self)@.restore_preview(),
    {
        if let Some(s) = &mut self.settings_state {
            if s.backup.restore_path.as_str().is_empty()
                || s.backup.restore_passphrase.as_str().is_empty() {
                return message::nothing();
            }
            s.backup.forget_validation();
            s.backup.restore_validating = true;
            message::one(
                Command::ReadBackup {
                    path: s.backup.restore_path.clone(),
                    passphrase: s.backup.restore_passphrase.clone(),
                },
            )
        } else {
            message::nothing()
        }
    }

    pub fn restore_previewed(
        &mut self,
        data: Vec<u8>,
        host_count: usize,
        modified_at: String,
        host_names: Vec<String>,
    )
        ensures
            final(self)@ == old(self)@.restore_previewed(data@, host_count, modified_at@, strings::texts(host_names@)),
    {
        if let Some(s) = &mut self.settings_state {
            s.backup.restore_validating = false;
            s.backup.restore_data = data;
            s.backup.restore_preview = Some(RestorePreview { host_count, modified_at, host_names });
        }
    }

    pub fn restore_confirm(&mut self) -> (res: Vec<Command>)
        ensures
            (final(self)@, message::command_models(res@)) == old(self)@.restore_confirm(),
    {
        let lang = self.i18n.lang;
        if let Some(s) = &mut self.settings_state {
            if s.backup.restore_preview.is_none() || s.backup.restore_data.len() == 0 {
                return message::nothing();
            }
            s.backup.restoring = true;
            s.backup.restore_error = None;
            s.backup.restore_result = None;
            let body = backup_body(&s.backup.restore_data, s.backup.restore_passphrase.as_str());
            message::one(
                Command::Call {
                    request: DaemonCall::Send { kind: "RestoreBackup".to_string(), body },
                    pending: Pending::Restore { lang },
                },
            )
        } else {
            message::nothing()
        }
    }

    pub fn restored(&mut self, hosts: Vec<HostItem>, loaded: Loaded, warning: Option<String>)
        ensures
            final(self)@ == old(self)@.restored(
                s3_main::host_models(hosts@),
                loaded,
                strings::opt_text(warning),
            ),
    {
        self.set_hosts(hosts);
        let mut state = s5_settings::State::from_json(loaded);
        state.active_section = SettingsSection::Backup;
        let mut result = self.i18n.tr("backup_restore_success");
        if let Some(w) = warning {
            result.push(Text::plain(" ".to_string()));
            result.push(Text::plain(w));
        }
        state.backup.restore_result = Some(result);
        self.terminal_appearance = state.terminal_appearance();
        self.settings_state = Some(state);
    }

    pub fn restore_failed(&mut self, message: Text)
        ensures
            final(self)@ == old(self)@.restore_failed(message@),
    {
        if let Some(s) = &mut self.settings_state {
            s.backup.restore_validating = false;
            s.backup.restoring = false;
            s.backup.restore_error = Some(message);
        }
    }
}

/// After another file is chosen or another passphrase typed, nothing can be
/// restored before the backup is looked into again.
pub proof fn law_restore_needs_a_fresh_preview(app: AppModel, path: Seq<char>, passphrase: Seq<char>)
    ensures
        app.with_backup(
            |b: StateModel| StateModel { restore_path: path, ..b.unvalidated() },
        ).restore_confirm().1.len() == 0,
        app.with_backup(
            |b: StateModel| StateModel { restore_passphrase: passphrase, ..b.unvalidated() },
        ).restore_confirm().1.len() == 0,
{
}

} // verus!
