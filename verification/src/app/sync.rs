//! Syncing the vault, and the screens that ask for a decision.
use vstd::prelude::*;

use crate::app::hosts;
use crate::app::message;
use crate::app::message::{
    CallModel,
    Command,
    CommandModel,
    DaemonCall,
    Pending,
    PendingModel,
};
use crate::app::tabs;
use crate::app::{AppModel, SyncState, VidaApp};
use crate::json;
use crate::json::{Json, JsonModel};
use crate::screens::s3_main;
use crate::screens::s3_main::{HostItem, HostModel};
use crate::screens::s6_conflict;
use crate::screens::s7_conflict_file;
use crate::screens::s7_conflict_file::{ConflictFileInfo, FileModel};
use crate::screens::s8_remote_missing;
use crate::screens::{Screen, ScreenModel};
use crate::strings;
use crate::text;
use crate::text::{I18n, Lang, Text};

verus! {

/// The names of hosts, in order.
pub open spec fn host_names(hosts: Seq<HostModel>) -> Seq<Seq<char>> {
    Seq::new(hosts.len(), |i: int| hosts[i].name)
}

/// The key of the text for where a conflicting file comes from.
pub open spec fn pattern_key(pattern: Seq<char>) -> Seq<char> {
    if pattern == "DropboxCopy"@ {
        "app_conflict_dropbox_copy"@
    } else if pattern == "DropboxVersion"@ {
        "app_conflict_dropbox_version"@
    } else if pattern == "Syncthing"@ {
        "app_conflict_syncthing"@
    } else if pattern == "IcloudPlaceholder"@ {
        "app_conflict_icloud"@
    } else {
        "app_conflict_generic"@
    }
}

/// The conflicting file that a value describes.
pub open spec fn file_of(j: JsonModel, lang: Lang) -> Option<FileModel> {
    if j.text_at("path"@) is Some && j.text_at("pattern"@) is Some {
        Some(
            FileModel {
                path: j.text_at("path"@)->0,
                pattern: text::tr(lang, pattern_key(j.text_at("pattern"@)->0)),
            },
        )
    } else {
        None
    }
}

/// The conflicting files that values describe, in order.
pub open spec fn files_among(items: Seq<JsonModel>, lang: Lang) -> Seq<FileModel>
    decreases items.len(),
{
    if items.len() == 0 {
        Seq::empty()
    } else {
        match file_of(items.last(), lang) {
            Some(file) => files_among(items.drop_last(), lang).push(file),
            None => files_among(items.drop_last(), lang),
        }
    }
}

/// The conflicting files in the member `files`.
pub open spec fn files_of(j: JsonModel, lang: Lang) -> Seq<FileModel> {
    match j.items_at("files"@) {
        Some(items) => files_among(items, lang),
        None => Seq::empty(),
    }
}

/// How a sync ended.
pub open spec fn status_of(j: JsonModel) -> Seq<char> {
    match j.text_at("status"@) {
        Some(status) => status,
        None => "unknown"@,
    }
}

impl AppModel {
    pub open spec fn sync_triggered(self) -> (AppModel, Seq<CommandModel>) {
        (
            AppModel { sync_state: SyncState::Syncing, ..self },
            seq![CommandModel::Call { request: CallModel::Sync, pending: PendingModel::Sync }],
        )
    }

    /// A sync has ended: what needs a decision shows, and hosts that came down
    /// take the place of those there were.
    pub open spec fn sync_completed(self, value: JsonModel) -> AppModel {
        let status = status_of(value);
        let attention = AppModel { sync_state: SyncState::NeedsAttention, ..self };
        if status == "conflict"@ {
            AppModel {
                screen: ScreenModel::Conflict(
                    s6_conflict::StateModel::compared(
                        host_names(self.hosts),
                        hosts::remote_names(value),
                    ),
                ),
                ..attention
            }
        } else if status == "conflict_files_detected"@ {
            AppModel {
                screen: ScreenModel::ConflictFile(
                    s7_conflict_file::StateModel {
                        files: files_of(value, self.lang),
                        remote_hosts: hosts::remote_names(value),
                    },
                ),
                ..attention
            }
        } else if status == "remote_missing"@ {
            AppModel { screen: ScreenModel::RemoteMissing, ..attention }
        } else if status == "downloaded"@ {
            let synced = AppModel {
                sync_state: SyncState::Synced,
                ..self.set_hosts(
                    match value.member("hosts"@) {
                        Some(list) => hosts::hosts_of(list),
                        None => Seq::empty(),
                    },
                )
            };
            if self.screen is Main {
                synced
            } else {
                AppModel { screen: ScreenModel::Main(s3_main::StateModel::hidden()), ..synced }
            }
        } else if status == "sync_not_configured"@ {
            AppModel { sync_state: SyncState::NotConfigured, ..self }
        } else {
            AppModel { sync_state: SyncState::Synced, ..self }
        }
    }

    /// The user decided, and the daemon did as asked.
    pub open spec fn resolved(self) -> (AppModel, Seq<CommandModel>) {
        (AppModel { sync_state: SyncState::Synced, ..self }, message::list_hosts())
    }

    /// The first conflicting file is adopted or ignored.
    pub open spec fn conflict_file(self, kind: Seq<char>) -> Seq<CommandModel> {
        match self.screen {
            ScreenModel::ConflictFile(s) => if s.files.len() == 0 {
                Seq::empty()
            } else {
                message::send_text(
                    kind,
                    "path"@,
                    s.files[0].path,
                    PendingModel::ConflictFileHandled,
                )
            },
            _ => Seq::empty(),
        }
    }
}

fn pattern_text(i18n: &I18n, pattern: &str) -> (res: Text)
    ensures
        res@ == text::tr(i18n.lang, pattern_key(pattern@)),
{
    if strings::text_eq(pattern, "DropboxCopy") {
        i18n.tr("app_conflict_dropbox_copy")
    } else if strings::text_eq(pattern, "DropboxVersion") {
        i18n.tr("app_conflict_dropbox_version")
    } else if strings::text_eq(pattern, "Syncthing") {
        i18n.tr("app_conflict_syncthing")
    } else if strings::text_eq(pattern, "IcloudPlaceholder") {
        i18n.tr("app_conflict_icloud")
    } else {
        i18n.tr("app_conflict_generic")
    }
}

fn parse_files(value: &Json, i18n: &I18n) -> (res: Vec<ConflictFileInfo>)
    ensures
        s7_conflict_file::file_models(res@) == files_of(value@, i18n.lang),
{
    let mut out: Vec<ConflictFileInfo> = Vec::new();
    proof {
        assert(s7_conflict_file::file_models(out@) =~= Seq::<FileModel>::empty());
    }
    let items = match value.array_at("files") {
        Some(items) => items,
        None => return out,
    };
    let ghost all = json::models(items@);
    let mut i: usize = 0;
    proof {
        assert(all.take(0) =~= Seq::<JsonModel>::empty());
    }
    while i < items.len()
        invariant
            i <= items@.len(),
            all == json::models(items@),
            s7_conflict_file::file_models(out@) == files_among(all.take(i as int), i18n.lang),
        decreases items@.len() - i,
    {
        proof {
            assert(all.take(i + 1).drop_last() =~= all.take(i as int));
            assert(all.take(i + 1).last() == items@[i as int]@);
        }
        let ghost before = out@;
        if let Some(path) = items[i].string_at("path") {
            if let Some(pattern) = items[i].str_at("pattern") {
                let file = ConflictFileInfo { path, pattern: pattern_text(i18n, pattern) };
                out.push(file);
                proof {
                    assert(s7_conflict_file::file_models(out@) =~= s7_conflict_file::file_models(
                        before,
                    ).push(file@));
                }
            }
        }
        i += 1;
    }
    proof {
        assert(all.take(i as int) =~= all);
    }
    out
}

fn names_of(hosts: &Vec<HostItem>) -> (res: Vec<String>)
    ensures
        strings::texts(res@) == host_names(s3_main::host_models(hosts@)),
{
    let mut out: Vec<String> = Vec::new();
    let mut i: usize = 0;
    while i < hosts.len()
        invariant
            i <= hosts@.len(),
            out@.len() == i,
            forall|k: int| 0 <= k < i ==> (#[trigger] out@[k])@ == hosts@[k].name@,
        decreases hosts@.len() - i,
    {
        out.push(hosts[i].name.clone());
        i += 1;
    }
    proof {
        assert(strings::texts(out@) =~= host_names(s3_main::host_models(hosts@)));
    }
    out
}

impl VidaApp {
    pub fn sync_triggered(&mut self) -> (res: Vec<Command>)
        ensures
            (final(self)@, message::command_models(res@)) == old(self)@.sync_triggered(),
    {
        self.sync_state = SyncState::Syncing;
        message::one(Command::Call { request: DaemonCall::Sync, pending: Pending::Sync })
    }

    pub fn sync_completed(&mut self, value: &Json)
        ensures
            final(self)@ == old(self)@.sync_completed(value@),
    {
        let status: &str = match value.str_at("status") {
            Some(status) => status,
            None => "unknown",
        };
        if strings::text_eq(status, "conflict") {
            self.sync_state = SyncState::NeedsAttention;
            let remote = hosts::parse_remote_names(value);
            let local = names_of(&self.hosts);
            self.screen = Screen::Conflict(s6_conflict::State::new(local, remote));
        } else if strings::text_eq(status, "conflict_files_detected") {
            self.sync_state = SyncState::NeedsAttention;
            let files = parse_files(value, &self.i18n);
            let remote = hosts::parse_remote_names(value);
            self.screen = Screen::ConflictFile(s7_conflict_file::State::new(files, remote));
        } else if strings::text_eq(status, "remote_missing") {
            self.sync_state = SyncState::NeedsAttention;
            self.screen = Screen::RemoteMissing(s8_remote_missing::State::new());
        } else if strings::text_eq(status, "downloaded") {
            self.sync_state = SyncState::Synced;
            let list: Vec<HostItem> = match value.get("hosts") {
                Some(list) => hosts::parse_hosts(list),
                None => {
                    let empty: Vec<HostItem> = Vec::new();
                    proof {
                        assert(s3_main::host_models(empty@) =~= Seq::<HostModel>::empty());
                    }
                    empty
                },
            };
            self.set_hosts(list);
            let on_main: bool = match self.screen {
                Screen::Main(_) => true,
                _ => false,
            };
            if !on_main {
                self.screen = tabs::main_screen();
            }
        } else if strings::text_eq(status, "sync_not_configured") {
            self.sync_state = SyncState::NotConfigured;
        } else {
            self.sync_state = SyncState::Synced;
        }
    }

    pub fn resolved(&mut self) -> (res: Vec<Command>)
        ensures
            (final(self)@, message::command_models(res@)) == old(self)@.resolved(),
    {
        self.sync_state = SyncState::Synced;
        message::ask_hosts()
    }

    /// The first conflicting file is adopted or ignored.
    pub fn conflict_file(&self, kind: &str) -> (res: Vec<Command>)
        ensures
            message::command_models(res@) == self@.conflict_file(kind@),
    {
        if let Screen::ConflictFile(s) = &self.screen {
            if s.files.len() > 0 {
                return message::ask_with_text(
                    kind,
                    "path",
                    s.files[0].path.as_str(),
                    Pending::ConflictFileHandled,
                );
            }
        }
        message::nothing()
    }
}

/// A conflict shows the hosts that the application has, whatever screen the
/// sync was started from.
pub proof fn law_conflict_shows_all_local_hosts(app: AppModel, value: JsonModel)
    requires
        status_of(value) == "conflict"@,
    ensures
        app.sync_completed(value).screen matches ScreenModel::Conflict(s) && s.local_hosts
            == host_names(app.hosts),
        app.sync_completed(value).hosts == app.hosts,
{
}

/// Downloaded hosts take the place of those that the application had; a conflict
/// is shown with the names of both sides.
pub proof fn law_downloaded_hosts_take_their_place(app: AppModel, value: JsonModel)
    ensures
        value.text_at("status"@) == Some("downloaded"@) && value.member("hosts"@) is Some
            ==> app.sync_completed(value).hosts == hosts::hosts_of(value.member("hosts"@)->0),
        value.text_at("status"@) == Some("conflict"@) && value.items_at("remote_hosts"@) is Some
            ==> (app.sync_completed(value).screen matches ScreenModel::Conflict(s)
            && s.remote_hosts == hosts::names_among(value.items_at("remote_hosts"@)->0)
            && s.local_hosts.len() == app.hosts.len() && (forall|i: int|
            0 <= i < app.hosts.len() ==> #[trigger] s.local_hosts[i] == app.hosts[i].name)),
{
    reveal_strlit("conflict");
    reveal_strlit("conflict_files_detected");
    reveal_strlit("remote_missing");
    reveal_strlit("downloaded");
    assert("conflict"@.len() == 8 && "conflict_files_detected"@.len() == 23);
    assert("remote_missing"@.len() == 14 && "downloaded"@.len() == 10);
}

/// Conflicting files are listed in order, each by its own path and by the kind of
/// program that left it.
pub proof fn law_conflicting_files_are_listed(items: Seq<JsonModel>, item: JsonModel, lang: Lang)
    ensures
        files_among(Seq::empty(), lang).len() == 0,
        item.text_at("path"@) is Some && item.text_at("pattern"@) is Some ==> files_among(
            items.push(item),
            lang,
        ) == files_among(items, lang).push(file_of(item, lang)->0) && file_of(item, lang)->0.path
            == item.text_at("path"@)->0,
        item.text_at("path"@) is None || item.text_at("pattern"@) is None ==> files_among(
            items.push(item),
            lang,
        ) == files_among(items, lang),
        pattern_key("DropboxCopy"@) == "app_conflict_dropbox_copy"@,
        pattern_key("DropboxVersion"@) == "app_conflict_dropbox_version"@,
        pattern_key("Syncthing"@) == "app_conflict_syncthing"@,
        pattern_key("IcloudPlaceholder"@) == "app_conflict_icloud"@,
        pattern_key(Seq::empty()) == "app_conflict_generic"@,
{
    assert(items.push(item).drop_last() =~= items);
    reveal_strlit("DropboxCopy");
    reveal_strlit("DropboxVersion");
    reveal_strlit("Syncthing");
    reveal_strlit("IcloudPlaceholder");
    assert("DropboxCopy"@.len() == 11 && "DropboxVersion"@.len() == 14);
    assert("Syncthing"@.len() == 9 && "IcloudPlaceholder"@.len() == 17);
}

} // verus!
