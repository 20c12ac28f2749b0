//! What a reply of the daemon means, by what it was asked for.
use vstd::prelude::*;

use crate::app::backup;
use crate::app::hosts;
use crate::app::message::{
    AppMessage,
    CallModel,
    Command,
    CommandModel,
    DaemonCall,
    Pending,
    PendingModel,
};
use crate::json;
use crate::json::{Json, JsonModel};
use crate::screens::s3_main;
use crate::screens::s3_main::{HostItem, HostModel};
use crate::strings;
use crate::text;
use crate::text::{I18n, Lang, SpanModel, Text};

verus! {

/// Why a request to the daemon failed.
#[derive(Debug)]
pub struct CallError {
    /// The whole error, as it is shown.
    pub text: String,
    /// What the daemon says.
    pub message: String,
    pub category: Option<String>,
}

#[verifier::ext_equal]
pub struct ErrorModel {
    pub text: Seq<char>,
    pub message: Seq<char>,
    pub category: Option<Seq<char>>,
}

impl View for CallError {
    type V = ErrorModel;

    open spec fn view(&self) -> ErrorModel {
        ErrorModel {
            text: self.text@,
            message: self.message@,
            category: strings::opt_text(self.category),
        }
    }
}

/// What a request came to.
pub open spec fn outcome(res: Result<Json, CallError>) -> Result<JsonModel, ErrorModel> {
    match res {
        Ok(value) => Ok(value@),
        Err(e) => Err(e@),
    }
}

/// What follows from a reply.
#[derive(Debug)]
pub enum Followup {
    Message(AppMessage),
    /// Settings came; they are still to be read.
    Settings(Json),
    /// A backup was restored; its settings are still to be read.
    Restored { hosts: Vec<HostItem>, settings: Json, warning: Option<String> },
    /// The bytes of a backup are to be written to a path.
    Write { data: Vec<u8>, path: String, lang: Lang },
}

#[verifier::ext_equal]
pub enum FollowupModel {
    DaemonChecked { locked: bool, vault_exists: bool },
    HostsLoaded(Seq<HostModel>),
    ConnectionError(Seq<char>),
    VaultCreated,
    Unlocked,
    UnlockFailed(Seq<char>, Option<Seq<char>>),
    HostDeleted,
    Credential(Seq<char>),
    HostSaved,
    Synced(JsonModel),
    Locked,
    SettingsSaved,
    ConflictResolved,
    ConflictFileHandled,
    RemoteMissingHandled,
    Exported(Seq<SpanModel>),
    ExportFailed(Seq<SpanModel>),
    Previewed {
        data: Seq<u8>,
        host_count: nat,
        modified_at: Seq<char>,
        host_names: Seq<Seq<char>>,
    },
    RestoreFailed(Seq<SpanModel>),
    Settings(JsonModel),
    Restored { hosts: Seq<HostModel>, settings: JsonModel, warning: Option<Seq<char>> },
    Write { data: Seq<u8>, path: Seq<char>, lang: Lang },
    /// A message that no reply gives.
    Other,
}

/// The message, as far as a reply can give it.
pub open spec fn message_model(m: AppMessage) -> FollowupModel {
    match m {
        AppMessage::DaemonChecked { locked, vault_exists } => FollowupModel::DaemonChecked {
            locked,
            vault_exists,
        },
        AppMessage::HostsLoaded(list) => FollowupModel::HostsLoaded(s3_main::host_models(list@)),
        AppMessage::WsError(e) => FollowupModel::ConnectionError(e@),
        AppMessage::SetupVaultCreated => FollowupModel::VaultCreated,
        AppMessage::UnlockSuccess => FollowupModel::Unlocked,
        AppMessage::UnlockFailed(e, category) => FollowupModel::UnlockFailed(
            e@,
            strings::opt_text(category),
        ),
        AppMessage::DeleteHost => FollowupModel::HostDeleted,
        AppMessage::ShowCredential(credential) => FollowupModel::Credential(credential@),
        AppMessage::EditorSaved => FollowupModel::HostSaved,
        AppMessage::SyncCompleted(value) => FollowupModel::Synced(value@),
        AppMessage::VaultLocked => FollowupModel::Locked,
        AppMessage::SettingsSaved => FollowupModel::SettingsSaved,
        AppMessage::ConflictResolved => FollowupModel::ConflictResolved,
        AppMessage::ConflictFileHandled => FollowupModel::ConflictFileHandled,
        AppMessage::RemoteMissingHandled => FollowupModel::RemoteMissingHandled,
        AppMessage::BackupExported(shown) => FollowupModel::Exported(shown@),
        AppMessage::BackupFailed(shown) => FollowupModel::ExportFailed(shown@),
        AppMessage::BackupRestorePreviewed { data, host_count, modified_at, host_names } =>
            FollowupModel::Previewed {
            data: data@,
            host_count: host_count as nat,
            modified_at: modified_at@,
            host_names: strings::texts(host_names@),
        },
        AppMessage::BackupRestoreFailed(shown) => FollowupModel::RestoreFailed(shown@),
        _ => FollowupModel::Other,
    }
}

impl View for Followup {
    type V = FollowupModel;

    open spec fn view(&self) -> FollowupModel {
        match self {
            Followup::Message(m) => message_model(*m),
            Followup::Settings(value) => FollowupModel::Settings(value@),
            Followup::Restored { hosts, settings, warning } => FollowupModel::Restored {
                hosts: s3_main::host_models(hosts@),
                settings: settings@,
                warning: strings::opt_text(*warning),
            },
            Followup::Write { data, path, lang } => FollowupModel::Write {
                data: data@,
                path: path@,
                lang: *lang,
            },
        }
    }
}

/// A message of its own where the request succeeded, whatever came back.
pub open spec fn done_or_error(
    done: FollowupModel,
    res: Result<JsonModel, ErrorModel>,
) -> FollowupModel {
    match res {
        Ok(_) => done,
        Err(e) => FollowupModel::ConnectionError(e.text),
    }
}

/// What looking into a backup shows. Whatever is missing makes the reply
/// worthless.
pub open spec fn previewed(data: Seq<u8>, value: JsonModel, lang: Lang) -> FollowupModel {
    match (
        value.unsigned_at("host_count"@),
        value.text_at("modified_at"@),
        value.items_at("host_names"@),
    ) {
        (Some(count), Some(modified_at), Some(names)) if count <= usize::MAX =>
            FollowupModel::Previewed {
            data,
            host_count: count,
            modified_at,
            host_names: json::texts_among(names),
        },
        _ => FollowupModel::RestoreFailed(text::tr(lang, "backup_restore_invalid_response"@)),
    }
}

/// What came of restoring a backup.
pub open spec fn restored(value: JsonModel, lang: Lang) -> FollowupModel {
    match (value.member("hosts"@), value.member("settings"@)) {
        (Some(list), Some(settings)) => FollowupModel::Restored {
            hosts: hosts::hosts_of(list),
            settings,
            warning: value.text_at("warning"@),
        },
        _ => FollowupModel::RestoreFailed(text::tr(lang, "backup_restore_invalid_response"@)),
    }
}

/// What follows from a reply, by what it was asked for.
pub open spec fn followup(
    pending: PendingModel,
    res: Result<JsonModel, ErrorModel>,
) -> FollowupModel {
    match pending {
        PendingModel::VaultStatus => match res {
            Ok(value) => FollowupModel::DaemonChecked {
                locked: match value.truth_at("locked"@) {
                    Some(b) => b,
                    None => true,
                },
                vault_exists: match value.truth_at("vault_exists"@) {
                    Some(b) => b,
                    None => false,
                },
            },
            Err(e) => FollowupModel::ConnectionError(e.text),
        },
        PendingModel::Hosts => match res {
            Ok(value) => FollowupModel::HostsLoaded(hosts::hosts_of(value)),
            Err(e) => FollowupModel::ConnectionError(e.text),
        },
        PendingModel::VaultCreated => done_or_error(FollowupModel::VaultCreated, res),
        PendingModel::Unlock => match res {
            Ok(_) => FollowupModel::Unlocked,
            Err(e) => FollowupModel::UnlockFailed(e.message, e.category),
        },
        PendingModel::Settings => match res {
            Ok(value) => FollowupModel::Settings(value),
            Err(e) => FollowupModel::ConnectionError(e.text),
        },
        PendingModel::HostDeleted => done_or_error(FollowupModel::HostDeleted, res),
        PendingModel::Credential => match res {
            Ok(value) => FollowupModel::Credential(
                match value.text_at("credential"@) {
                    Some(credential) => credential,
                    None => Seq::empty(),
                },
            ),
            Err(e) => FollowupModel::ConnectionError(e.text),
        },
        PendingModel::HostSaved => done_or_error(FollowupModel::HostSaved, res),
        PendingModel::Sync => match res {
            Ok(value) => FollowupModel::Synced(value),
            Err(e) => FollowupModel::ConnectionError(e.text),
        },
        PendingModel::Locked => done_or_error(FollowupModel::Locked, res),
        PendingModel::SettingsSaved => done_or_error(FollowupModel::SettingsSaved, res),
        PendingModel::ConflictResolved => done_or_error(FollowupModel::ConflictResolved, res),
        PendingModel::ConflictFileHandled => done_or_error(
            FollowupModel::ConflictFileHandled,
            res,
        ),
        PendingModel::RemoteMissingHandled => done_or_error(
            FollowupModel::RemoteMissingHandled,
            res,
        ),
        PendingModel::Export { path, lang } => match res {
            Ok(value) => match hosts::backup_of(value) {
                Some(data) => FollowupModel::Write { data, path, lang },
                None => FollowupModel::ExportFailed(text::tr(lang, "backup_invalid_data"@)),
            },
            Err(e) => FollowupModel::ExportFailed(text::plain(e.text)),
        },
        PendingModel::Preview { data, lang } => match res {
            Ok(value) => previewed(data, value, lang),
            Err(e) => FollowupModel::RestoreFailed(text::plain(e.text)),
        },
        PendingModel::Restore { lang } => match res {
            Ok(value) => restored(value, lang),
            Err(e) => FollowupModel::RestoreFailed(text::plain(e.text)),
        },
    }
}

fn ws_error(e: CallError) -> (res: Followup)
    ensures
        res@ == FollowupModel::ConnectionError(e@.text),
{
    Followup::Message(AppMessage::WsError(e.text))
}

fn settle(done: AppMessage, res: Result<Json, CallError>) -> (next: Followup)
    ensures
        next@ == done_or_error(message_model(done), outcome(res)),
{
    match res {
        Ok(_) => Followup::Message(done),
        Err(e) => ws_error(e),
    }
}

fn invalid_restore(lang: Lang) -> (res: Followup)
    ensures
        res@ == FollowupModel::RestoreFailed(text::tr(lang, "backup_restore_invalid_response"@)),
{
    Followup::Message(
        AppMessage::BackupRestoreFailed(I18n::new(lang).tr("backup_restore_invalid_response")),
    )
}

fn preview_reply(data: Vec<u8>, value: &Json, lang: Lang) -> (res: Followup)
    ensures
        res@ == previewed(data@, value@, lang),
{
    let count: u64 = match value.u64_at("host_count") {
        Some(count) => count,
        None => return invalid_restore(lang),
    };
    if count > usize::MAX as u64 {
        return invalid_restore(lang);
    }
    let modified_at = match value.string_at("modified_at") {
        Some(modified_at) => modified_at,
        None => return invalid_restore(lang),
    };
    let host_names = match value.array_at("host_names") {
        Some(names) => json::strings_among(names),
        None => return invalid_restore(lang),
    };
    Followup::Message(
        AppMessage::BackupRestorePreviewed {
            data,
            host_count: count as usize,
            modified_at,
            host_names,
        },
    )
}

fn restore_reply(value: &Json, lang: Lang) -> (res: Followup)
    ensures
        res@ == restored(value@, lang),
{
    let hosts = match value.get("hosts") {
        Some(list) => hosts::parse_hosts(list),
        None => return invalid_restore(lang),
    };
    let settings = match value.get("settings") {
        Some(settings) => settings.clone(),
        None => return invalid_restore(lang),
    };
    Followup::Restored { hosts, settings, warning: value.string_at("warning") }
}

/// What follows from a reply, by what it was asked for.
pub fn resolve(pending: Pending, res: Result<Json, CallError>) -> (next: Followup)
    ensures
        next@ == followup(pending@, outcome(res)),
{
    match pending {
        Pending::VaultStatus => match res {
            Ok(value) => Followup::Message(
                AppMessage::DaemonChecked {
                    locked: match value.bool_at("locked") {
                        Some(b) => b,
                        None => true,
                    },
                    vault_exists: match value.bool_at("vault_exists") {
                        Some(b) => b,
                        None => false,
                    },
                },
            ),
            Err(e) => ws_error(e),
        },
        Pending::Hosts => match res {
            Ok(value) => Followup::Message(AppMessage::HostsLoaded(hosts::parse_hosts(&value))),
            Err(e) => ws_error(e),
        },
        Pending::VaultCreated => settle(AppMessage::SetupVaultCreated, res),
        Pending::Unlock => match res {
            Ok(_) => Followup::Message(AppMessage::UnlockSuccess),
            Err(e) => Followup::Message(AppMessage::UnlockFailed(e.message, e.category)),
        },
        Pending::Settings => match res {
            Ok(value) => Followup::Settings(value),
            Err(e) => ws_error(e),
        },
        Pending::HostDeleted => settle(AppMessage::DeleteHost, res),
        Pending::Credential => match res {
            Ok(value) => {
                let credential = match value.string_at("credential") {
                    Some(credential) => credential,
                    None => String::new(),
                };
                proof {
                    if value@.text_at("credential"@) is None {
                        assert(credential@ =~= Seq::<char>::empty());
                    }
                }
                Followup::Message(AppMessage::ShowCredential(credential))
            },
            Err(e) => ws_error(e),
        },
        Pending::HostSaved => settle(AppMessage::EditorSaved, res),
        Pending::Sync => match res {
            Ok(value) => Followup::Message(AppMessage::SyncCompleted(value)),
            Err(e) => ws_error(e),
        },
        Pending::Locked => settle(AppMessage::VaultLocked, res),
        Pending::SettingsSaved => settle(AppMessage::SettingsSaved, res),
        Pending::ConflictResolved => settle(AppMessage::ConflictResolved, res),
        Pending::ConflictFileHandled => settle(AppMessage::ConflictFileHandled, res),
        Pending::RemoteMissingHandled => settle(AppMessage::RemoteMissingHandled, res),
        Pending::Export { path, lang } => match res {
            Ok(value) => match hosts::parse_backup_bytes(&value) {
                Ok(data) => Followup::Write { data, path, lang },
                Err(_) => Followup::Message(
                    AppMessage::BackupFailed(I18n::new(lang).tr("backup_invalid_data")),
                ),
            },
            Err(e) => Followup::Message(AppMessage::BackupFailed(Text::plain(e.text))),
        },
        Pending::Preview { data, lang } => match res {
            Ok(value) => preview_reply(data, &value, lang),
            Err(e) => Followup::Message(AppMessage::BackupRestoreFailed(Text::plain(e.text))),
        },
        Pending::Restore { lang } => match res {
            Ok(value) => restore_reply(&value, lang),
            Err(e) => Followup::Message(AppMessage::BackupRestoreFailed(Text::plain(e.text))),
        },
    }
}

// ---------------------------------------------------------------------------
// Files of backups
// ---------------------------------------------------------------------------

/// What is said once a backup was written, or could not be.
pub open spec fn written(path: Seq<char>, len: nat, error: Option<Seq<char>>, lang: Lang) -> FollowupModel {
    match error {
        None => FollowupModel::Exported(
            text::trf2(lang, "backup_saved"@, path, strings::decimal(len)),
        ),
        Some(e) => FollowupModel::ExportFailed(
            text::trf2(lang, "backup_write_failed"@, path, e),
        ),
    }
}

/// What is said once a backup was written, or could not be.
pub fn export_written(path: String, len: usize, error: Option<String>, lang: Lang) -> (res:
    AppMessage)
    ensures
        message_model(res) == written(path@, len as nat, strings::opt_text(error), lang),
{
    let i18n = I18n::new(lang);
    match error {
        None => AppMessage::BackupExported(
            i18n.trf2("backup_saved", path, strings::decimal_text(len as u64)),
        ),
        Some(e) => AppMessage::BackupFailed(i18n.trf2("backup_write_failed", path, e)),
    }
}

/// What to do once the file of a backup was read: it is looked into.
#[derive(Debug)]
pub enum Read {
    Ask(Command),
    Message(AppMessage),
}

/// The request that looks into a backup.
pub open spec fn preview_command(data: Seq<u8>, passphrase: Seq<char>, lang: Lang) -> CommandModel {
    CommandModel::Call {
        request: CallModel::Send {
            kind: "PreviewBackup"@,
            body: backup::backup_request(data, passphrase),
        },
        pending: PendingModel::Preview { data, lang },
    }
}

/// What to do once the file of a backup was read, or could not be.
pub fn backup_read(
    file: Result<Vec<u8>, String>,
    path: String,
    passphrase: String,
    lang: Lang,
) -> (res: Read)
    ensures
        match file {
            Ok(data) => res matches Read::Ask(command) && command@ == preview_command(
                data@,
                passphrase@,
                lang,
            ),
            Err(e) => res matches Read::Message(m) && message_model(m)
                == FollowupModel::RestoreFailed(
                text::trf2(lang, "backup_restore_read_failed"@, path@, e@),
            ),
        },
{
    match file {
        Ok(data) => {
            let body = backup::backup_body(&data, passphrase.as_str());
            Read::Ask(
                Command::Call {
                    request: DaemonCall::Send { kind: "PreviewBackup".to_string(), body },
                    pending: Pending::Preview { data, lang },
                },
            )
        },
        Err(e) => Read::Message(
            AppMessage::BackupRestoreFailed(
                I18n::new(lang).trf2("backup_restore_read_failed", path, e),
            ),
        ),
    }
}

/// A reply is taken as what was asked for, and an error of any request but those
/// for unlocking and for backups is one of the connection.
pub proof fn law_reply_is_taken_as_what_was_asked(value: JsonModel, e: ErrorModel)
    ensures
        followup(PendingModel::Hosts, Ok(value)) == FollowupModel::HostsLoaded(
            hosts::hosts_of(value),
        ),
        followup(PendingModel::VaultCreated, Ok(value)) is VaultCreated,
        followup(PendingModel::Unlock, Ok(value)) is Unlocked,
        followup(PendingModel::Settings, Ok(value)) == FollowupModel::Settings(value),
        followup(PendingModel::HostDeleted, Ok(value)) is HostDeleted,
        followup(PendingModel::HostSaved, Ok(value)) is HostSaved,
        followup(PendingModel::Sync, Ok(value)) == FollowupModel::Synced(value),
        followup(PendingModel::Locked, Ok(value)) is Locked,
        followup(PendingModel::SettingsSaved, Ok(value)) is SettingsSaved,
        followup(PendingModel::ConflictResolved, Ok(value)) is ConflictResolved,
        followup(PendingModel::ConflictFileHandled, Ok(value)) is ConflictFileHandled,
        followup(PendingModel::RemoteMissingHandled, Ok(value)) is RemoteMissingHandled,
        value.text_at("credential"@) matches Some(c) ==> followup(
            PendingModel::Credential,
            Ok(value),
        ) == FollowupModel::Credential(c),
        followup(PendingModel::Unlock, Err(e)) == FollowupModel::UnlockFailed(
            e.message,
            e.category,
        ),
        ({
            let failed = FollowupModel::ConnectionError(e.text);
            &&& followup(PendingModel::VaultStatus, Err(e)) == failed
            &&& followup(PendingModel::Hosts, Err(e)) == failed
            &&& followup(PendingModel::VaultCreated, Err(e)) == failed
            &&& followup(PendingModel::Settings, Err(e)) == failed
            &&& followup(PendingModel::HostDeleted, Err(e)) == failed
            &&& followup(PendingModel::Credential, Err(e)) == failed
            &&& followup(PendingModel::HostSaved, Err(e)) == failed
            &&& followup(PendingModel::Sync, Err(e)) == failed
            &&& followup(PendingModel::Locked, Err(e)) == failed
            &&& followup(PendingModel::SettingsSaved, Err(e)) == failed
            &&& followup(PendingModel::ConflictResolved, Err(e)) == failed
        }),
{
}

/// A vault counts as locked and as missing unless the daemon says otherwise.
pub proof fn law_vault_is_locked_unless_told(value: JsonModel)
    ensures
        followup(PendingModel::VaultStatus, Ok(value)) matches FollowupModel::DaemonChecked {
            locked,
            vault_exists,
        } && (locked <==> value.truth_at("locked"@) != Some(false)) && (vault_exists
            <==> value.truth_at("vault_exists"@) == Some(true)),
{
}

/// A backup is written to the path that was chosen with exactly the bytes that
/// came; without bytes it fails. Its preview keeps the bytes that were looked
/// into and tells what the daemon told of them.
pub proof fn law_backup_replies(
    value: JsonModel,
    path: Seq<char>,
    data: Seq<u8>,
    lang: Lang,
    e: ErrorModel,
)
    ensures
        hosts::backup_of(value) matches Some(bytes) ==> followup(
            PendingModel::Export { path, lang },
            Ok(value),
        ) == (FollowupModel::Write { data: bytes, path, lang }),
        hosts::backup_of(value) is None ==> followup(PendingModel::Export { path, lang }, Ok(value))
            is ExportFailed,
        followup(PendingModel::Export { path, lang }, Err(e)) is ExportFailed,
        followup(PendingModel::Preview { data, lang }, Err(e)) is RestoreFailed,
        followup(PendingModel::Restore { lang }, Err(e)) is RestoreFailed,
        followup(PendingModel::Preview { data, lang }, Ok(value)) matches FollowupModel::Previewed {
            data: kept,
            host_count,
            modified_at,
            host_names: _,
        } ==> kept == data && value.unsigned_at("host_count"@) == Some(host_count)
            && value.text_at("modified_at"@) == Some(modified_at),
        value.member("hosts"@) is Some && value.member("settings"@) is Some ==> followup(
            PendingModel::Restore { lang },
            Ok(value),
        ) == (FollowupModel::Restored {
            hosts: hosts::hosts_of(value.member("hosts"@)->0),
            settings: value.member("settings"@)->0,
            warning: value.text_at("warning"@),
        }),
        value.member("hosts"@) is None || value.member("settings"@) is None ==> followup(
            PendingModel::Restore { lang },
            Ok(value),
        ) is RestoreFailed,
{
}

/// A backup is looked into with exactly the bytes of its file and the passphrase
/// that was typed, and its reply belongs to the same bytes.
pub proof fn law_backup_is_looked_into(data: Seq<u8>, passphrase: Seq<char>, lang: Lang)
    ensures
        preview_command(data, passphrase, lang) matches CommandModel::Call {
            request: CallModel::Send { kind, body },
            pending,
        } && kind == "PreviewBackup"@ && body.text_at("passphrase"@) == Some(passphrase)
            && hosts::backup_of(body) == Some(data) && pending == (PendingModel::Preview {
            data,
            lang,
        }),
{
    reveal_strlit("data");
    reveal_strlit("passphrase");
    assert("data"@.len() == 4 && "passphrase"@.len() == 10);
    let body = backup::backup_request(data, passphrase);
    let members = body->Object_0;
    json::law_first_member_counts(members, "data"@, 0);
    json::law_first_member_counts(members, "passphrase"@, 1);
    let items = hosts::byte_array(data)->Array_0;
    assert(body.items_at("data"@) == Some(items));
    assert forall|i: int| 0 <= i < items.len() implies hosts::byte_of(#[trigger] items[i]) == Some(
        data[i],
    ) by {}
    assert(Seq::new(items.len(), |i: int| hosts::byte_of(items[i])->0) =~= data);
}

} // verus!
