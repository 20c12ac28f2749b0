//! What the messages for syncing are for.
use vstd::prelude::*;

use crate::app::{AppModel, SyncState};
use crate::app::message::{AppMessage, CallModel, CommandModel, PendingModel};
use crate::json::JsonModel;
use crate::screens::ScreenModel;

verus! {

/// The user's decision is what the daemon is asked to carry out: keeping the
/// local vault asks, once, for the local one, and keeping the remote vault for
/// the remote one. So the two never send the same request.
pub proof fn law_conflict_is_settled_as_decided(app: AppModel)
    ensures
        app.on_sync(AppMessage::ConflictResolveLocal) == (
            app,
            seq![
                CommandModel::Call {
                    request: CallModel::Send {
                        kind: "ResolveConflict"@,
                        body: JsonModel::Object(seq![("choice"@, JsonModel::Str("local"@))]),
                    },
                    pending: PendingModel::ConflictResolved,
                },
            ],
        ),
        app.on_sync(AppMessage::ConflictResolveRemote) == (
            app,
            seq![
                CommandModel::Call {
                    request: CallModel::Send {
                        kind: "ResolveConflict"@,
                        body: JsonModel::Object(seq![("choice"@, JsonModel::Str("remote"@))]),
                    },
                    pending: PendingModel::ConflictResolved,
                },
            ],
        ),
        app.on_sync(AppMessage::ConflictResolveLocal).1 != app.on_sync(
            AppMessage::ConflictResolveRemote,
        ).1,
{
    reveal_strlit("local");
    reveal_strlit("remote");
    let a = JsonModel::Object(seq![("choice"@, JsonModel::Str("local"@))]);
    let b = JsonModel::Object(seq![("choice"@, JsonModel::Str("remote"@))]);
    assert("local"@.len() != "remote"@.len());
    assert(a->Object_0[0].1 != b->Object_0[0].1);
    let x = app.on_sync(AppMessage::ConflictResolveLocal).1;
    let y = app.on_sync(AppMessage::ConflictResolveRemote).1;
    assert(x[0] != y[0]);
}

/// A conflicting file is adopted or ignored by its own path, and what to do
/// about a missing remote copy is what the user chose.
pub proof fn law_conflict_file_is_handled_as_decided(app: AppModel, action: String)
    ensures
        app.screen matches ScreenModel::ConflictFile(s) ==> {
            let with = |kind: Seq<char>|
                if s.files.len() == 0 {
                    Seq::empty()
                } else {
                    seq![
                        CommandModel::Call {
                            request: CallModel::Send {
                                kind,
                                body: JsonModel::Object(
                                    seq![("path"@, JsonModel::Str(s.files[0].path))],
                                ),
                            },
                            pending: PendingModel::ConflictFileHandled,
                        },
                    ]
                };
            &&& app.on_sync(AppMessage::ConflictFileAdopt) == (app, with("AdoptConflictFile"@))
            &&& app.on_sync(AppMessage::ConflictFileIgnore) == (app, with("IgnoreConflictFile"@))
        },
        app.on_sync(AppMessage::RemoteMissingAction(action)) == (
            app,
            seq![
                CommandModel::Call {
                    request: CallModel::Send {
                        kind: "HandleRemoteMissing"@,
                        body: JsonModel::Object(seq![("action"@, JsonModel::Str(action@))]),
                    },
                    pending: PendingModel::RemoteMissingHandled,
                },
            ],
        ),
{
}

/// Once a decision was carried out the vault counts as synced, and the hosts are
/// loaded again. A sync that is asked for is begun, once.
pub proof fn law_settled_conflict_reloads_the_hosts(app: AppModel)
    ensures
        ({
            let done = (
                AppModel { sync_state: SyncState::Synced, ..app },
                seq![
                    CommandModel::Call {
                        request: CallModel::ListHosts,
                        pending: PendingModel::Hosts,
                    },
                ],
            );
            &&& app.on_sync(AppMessage::ConflictResolved) == done
            &&& app.on_sync(AppMessage::ConflictFileHandled) == done
            &&& app.on_sync(AppMessage::RemoteMissingHandled) == done
        }),
        app.on_sync(AppMessage::SyncTriggered) == (
            AppModel { sync_state: SyncState::Syncing, ..app },
            seq![CommandModel::Call { request: CallModel::Sync, pending: PendingModel::Sync }],
        ),
{
}

/// How a sync ended decides what shows: a conflict, conflicting files and a
/// missing remote copy need a decision and lose no host; downloaded hosts take
/// the place of those there were; any other end shows nothing.
pub proof fn law_sync_result_decides(app: AppModel, value: crate::json::Json)
    ensures
        ({
            let (after, asked) = app.on_sync(AppMessage::SyncCompleted(value));
            let status = value@.text_at("status"@);
            &&& asked.len() == 0
            &&& status == Some("conflict"@) ==> after.sync_state == SyncState::NeedsAttention
                && after.screen is Conflict && after.hosts == app.hosts && after.tabs == app.tabs
            &&& status == Some("conflict_files_detected"@) ==> after.sync_state
                == SyncState::NeedsAttention && after.screen is ConflictFile && after.hosts
                == app.hosts && after.tabs == app.tabs
            &&& status == Some("remote_missing"@) ==> after.sync_state
                == SyncState::NeedsAttention && after.screen is RemoteMissing && after.hosts
                == app.hosts
            &&& status == Some("downloaded"@) ==> after.sync_state == SyncState::Synced
                && after.screen is Main
            &&& status == Some("sync_not_configured"@) ==> after == (AppModel {
                sync_state: SyncState::NotConfigured,
                ..app
            })
            &&& status is None || status == Some("uploaded"@) || status == Some("up_to_date"@)
                ==> after == (AppModel { sync_state: SyncState::Synced, ..app })
        }),
{
    reveal_strlit("conflict");
    reveal_strlit("conflict_files_detected");
    reveal_strlit("remote_missing");
    reveal_strlit("downloaded");
    reveal_strlit("sync_not_configured");
    reveal_strlit("uploaded");
    reveal_strlit("up_to_date");
    reveal_strlit("unknown");
    assert("conflict"@.len() == 8 && "conflict_files_detected"@.len() == 23);
    assert("remote_missing"@.len() == 14 && "downloaded"@.len() == 10);
    assert("sync_not_configured"@.len() == 19 && "unknown"@.len() == 7);
    assert("uploaded"@.len() == 8 && "uploaded"@[0] == 'u' && "conflict"@[0] == 'c');
    assert("up_to_date"@.len() == 10 && "up_to_date"@[0] == 'u' && "downloaded"@[0] == 'd');
}

} // verus!
