//! What the messages for hosts and their editor are for.
use vstd::prelude::*;

use crate::app::AppModel;
use crate::app::message;
use crate::app::message::{AppMessage, CallModel, CommandModel, KeyFile, PendingModel};
use crate::json::JsonModel;
use crate::model;
use crate::screens::{ScreenModel, TabModel};
use crate::screens::s3_main;
use crate::screens::s3_main::{HostItem, HostModel};
use crate::screens::s4_credential;
use crate::screens::s4_credential::AuthKind;
use crate::strings;

verus! {

/// Hosts that were loaded show on the main screen, and the settings are asked
/// for where there are none yet.
pub proof fn law_loaded_hosts_show(app: AppModel, hosts: Vec<HostItem>)
    ensures
        ({
            let (after, asked) = app.on_tab(AppMessage::HostsLoaded(hosts));
            &&& after.hosts == s3_main::host_models(hosts@)
            &&& after.screen matches ScreenModel::Main(s) && s.revealed_credential is None
                && !s.credential_copied
            &&& !app.terminal_restore_pending ==> asked == (if app.settings_state is None {
                seq![
                    CommandModel::Call {
                        request: CallModel::GetSettings,
                        pending: PendingModel::Settings,
                    },
                ]
            } else {
                Seq::empty()
            })
            &&& after.terminal_sessions == app.terminal_sessions
        }),
{
    let (after, asked) = app.on_tab(AppMessage::HostsLoaded(hosts));
    if !app.terminal_restore_pending {
        assert(asked =~= (if app.settings_state is None {
            message::get_settings()
        } else {
            Seq::empty()
        }));
    }
}

/// Exactly the host that was asked for is deleted, and the hosts are loaded
/// again afterwards.
pub proof fn law_delete_names_its_host(app: AppModel, id: String)
    ensures
        app.on_tab(AppMessage::DeleteHostConfirm(id)) == (
            app,
            seq![
                CommandModel::Call {
                    request: CallModel::Send {
                        kind: "DeleteHost"@,
                        body: JsonModel::Object(seq![("host_id"@, JsonModel::Str(id@))]),
                    },
                    pending: PendingModel::HostDeleted,
                },
            ],
        ),
        app.on_tab(AppMessage::DeleteHost) == (
            app,
            seq![
                CommandModel::Call { request: CallModel::ListHosts, pending: PendingModel::Hosts },
            ],
        ),
{
}

/// Editing a host opens an editor that holds what is known of exactly that
/// host, and no credential.
pub proof fn law_edit_opens_the_host(app: AppModel, id: String, i: int)
    requires
        0 <= i < app.hosts.len(),
        app.hosts[i].id == id@,
        forall|j: int| 0 <= j < i ==> (#[trigger] app.hosts[j]).id != id@,
    ensures
        ({
            let (after, asked) = app.on_tab(AppMessage::EditHost(id));
            let h = app.hosts[i];
            &&& asked.len() == 0
            &&& after.hosts == app.hosts
            &&& after.active_tab_id == "edit_"@ + id@
            &&& after.editor_state is Some
            &&& after.editor_state->0.host_id == Some(id@)
            &&& after.editor_state->0.name == h.name
            &&& after.editor_state->0.host == h.host
            &&& after.editor_state->0.user == h.user
            &&& after.editor_state->0.port == strings::decimal(h.port as nat)
            &&& after.editor_state->0.tags == strings::joined(h.tags, ", "@)
            &&& h.group is Some ==> after.editor_state->0.group == h.group->0
            &&& h.group is None ==> after.editor_state->0.group.len() == 0
            &&& h.color is Some ==> after.editor_state->0.color == h.color->0
            &&& h.notes is Some ==> after.editor_state->0.notes == h.notes->0
            &&& h.notes is None ==> after.editor_state->0.notes.len() == 0
            &&& h.auth_kind == "key"@ ==> after.editor_state->0.auth_kind == AuthKind::KeyFile
            &&& h.auth_kind == "key_inline"@ ==> after.editor_state->0.auth_kind
                == AuthKind::KeyInline
            &&& h.auth_kind == "password"@ ==> after.editor_state->0.auth_kind
                == AuthKind::Password
            &&& !after.editor_state->0.credential_dirty
            &&& after.editor_state->0.password.len() == 0
            &&& after.editor_state->0.inline_key.len() == 0
            &&& after.editor_state->0.key_passphrase.len() == 0
            &&& !after.editor_state->0.saving
        }),
{
    let p = |h: HostModel| h.id == id@;
    assert(model::first_at(app.hosts, p, i));
    model::lemma_first_index_some(app.hosts, p, i);
    reveal_strlit("key");
    reveal_strlit("key_inline");
    reveal_strlit("password");
    assert("key"@.len() == 3 && "key_inline"@.len() == 10 && "password"@.len() == 8);
}

/// A new host is added in an empty editor, as root on the port of SSH, in a tab
/// of its own.
pub proof fn law_add_opens_an_empty_editor(app: AppModel)
    ensures
        ({
            let (after, asked) = app.on_tab(AppMessage::OpenAddHostTab);
            &&& asked.len() == 0
            &&& after.active_tab_id == "add_host"@
            &&& after.editor_state is Some
            &&& after.editor_state->0.host_id is None
            &&& after.editor_state->0.name.len() == 0
            &&& after.editor_state->0.host.len() == 0
            &&& after.editor_state->0.user == "root"@
            &&& after.editor_state->0.port == "22"@
            &&& after.editor_state->0.auth_kind == AuthKind::Password
            &&& after.editor_state->0.credential_dirty
            &&& after.editor_state->0.password.len() == 0
        }),
        app.on_tab(AppMessage::QuickAddHost).0 == (AppModel {
            show_connect_panel: false,
            ..app.on_tab(AppMessage::OpenAddHostTab).0
        }),
{
    assert(app.on_tab(AppMessage::QuickAddHost).0 =~= (AppModel {
        show_connect_panel: false,
        ..app.on_tab(AppMessage::OpenAddHostTab).0
    }));
}

/// What is typed into a field of the editor is what the field holds; it changes
/// nothing else.
pub proof fn law_editor_fields(app: AppModel, s: s4_credential::StateModel, v: String)
    requires
        app.editor_state == Some(s),
    ensures
        ({
            let with = |t: s4_credential::StateModel|
                (AppModel { editor_state: Some(t), ..app }, Seq::<CommandModel>::empty());
            &&& app.on_field(AppMessage::EditorNameChanged(v)) == with(
                s4_credential::StateModel { name: v@, ..s },
            )
            &&& app.on_field(AppMessage::EditorHostChanged(v)) == with(
                s4_credential::StateModel { host: v@, ..s },
            )
            &&& app.on_field(AppMessage::EditorUserChanged(v)) == with(
                s4_credential::StateModel { user: v@, ..s },
            )
            &&& app.on_field(AppMessage::EditorPortChanged(v)) == with(
                s4_credential::StateModel { port: v@, ..s },
            )
            &&& app.on_field(AppMessage::EditorTagsChanged(v)) == with(
                s4_credential::StateModel { tags: v@, ..s },
            )
            &&& app.on_field(AppMessage::EditorGroupChanged(v)) == with(
                s4_credential::StateModel { group: v@, ..s },
            )
            &&& app.on_field(AppMessage::EditorNotesChanged(v)) == with(
                s4_credential::StateModel { notes: v@, ..s },
            )
            &&& app.on_field(AppMessage::EditorKeyPathChanged(v)) == with(
                s4_credential::StateModel { private_key_path: v@, credential_dirty: true, ..s },
            )
            &&& app.on_field(AppMessage::EditorKeyPassphraseChanged(v)) == with(
                s4_credential::StateModel { key_passphrase: v@, credential_dirty: true, ..s },
            )
            &&& app.on_editor(AppMessage::EditorKeyFilePicked(v)) == with(
                s4_credential::StateModel {
                    private_key_path: v@,
                    credential_dirty: true,
                    error: None,
                    ..s
                },
            )
        }),
        ({
            let after = app.on_field(AppMessage::EditorPasswordChanged(v)).0.editor_state;
            &&& after is Some
            &&& after->0.password == v@
            &&& after->0.credential_dirty
            &&& after->0.password_cleared <==> (v@.len() == 0 && s.password.len() > 0
                && s.host_id is Some)
            &&& after->0.name == s.name
            &&& after->0.auth_kind == s.auth_kind
        }),
{
}

/// Another way of authentication drops what was typed for the one before; the
/// same one drops nothing.
pub proof fn law_other_authentication_drops_secrets(
    app: AppModel,
    s: s4_credential::StateModel,
    kind: AuthKind,
)
    requires
        app.editor_state == Some(s),
    ensures
        ({
            let after = app.on_field(AppMessage::EditorAuthChanged(kind)).0.editor_state;
            &&& kind == s.auth_kind ==> after == Some(s)
            &&& kind != s.auth_kind ==> {
                &&& after is Some
                &&& after->0.auth_kind == kind
                &&& after->0.credential_dirty
                &&& after->0.password.len() == 0
                &&& after->0.private_key_path.len() == 0
                &&& after->0.inline_key.len() == 0
                &&& after->0.key_passphrase.len() == 0
                &&& after->0.name == s.name
                &&& after->0.host == s.host
                &&& after->0.user == s.user
                &&& after->0.port == s.port
            }
        }),
{
}

/// A key that was read from a file is the one that is saved; a file that is
/// empty or cannot be read leaves the key as it is and tells why.
pub proof fn law_imported_key(
    app: AppModel,
    s: s4_credential::StateModel,
    contents: String,
    e: String,
)
    requires
        app.editor_state == Some(s),
    ensures
        ({
            let read = app.on_editor(AppMessage::EditorKeyFileRead(KeyFile::Contents(contents))).0;
            let failed = app.on_editor(AppMessage::EditorKeyFileRead(KeyFile::ReadFailed(e))).0;
            &&& contents@.len() > 0 ==> read.editor_state == Some(
                s4_credential::StateModel {
                    inline_key: contents@,
                    credential_dirty: true,
                    error: None,
                    ..s
                },
            )
            &&& contents@.len() == 0 ==> read.editor_state is Some
                && read.editor_state->0.inline_key == s.inline_key && read.editor_state->0.error
                is Some
            &&& failed.editor_state is Some && failed.editor_state->0.inline_key == s.inline_key
            &&& failed.editor_state is Some && failed.editor_state->0.error is Some
        }),
        app.on_editor(AppMessage::EditorPickKeyFile).1 == seq![CommandModel::PickKeyFile],
        app.on_editor(AppMessage::EditorImportKeyFile).1 == seq![CommandModel::ImportKeyFile],
{
}

/// Saving sends the host of the editor once, and saves no other; once it is
/// saved or given up, the editor is closed and the hosts are loaded again.
pub proof fn law_save_sends_the_editor(app: AppModel, s: s4_credential::StateModel)
    requires
        app.editor_state == Some(s),
    ensures
        app.on_editor(AppMessage::EditorSave).1 == seq![
            CommandModel::Call {
                request: CallModel::Send { kind: "UpdateHost"@, body: s.request() },
                pending: PendingModel::HostSaved,
            },
        ],
        app.on_editor(AppMessage::EditorSave).0.editor_state == Some(
            s4_credential::StateModel { saving: true, error: None, ..s },
        ),
        app.on_editor(AppMessage::EditorSaved) == app.on_editor(AppMessage::EditorCancel),
        app.on_editor(AppMessage::EditorSaved).0.editor_state is None,
        app.on_editor(AppMessage::EditorSaved).0.hosts == app.hosts,
        app.on_editor(AppMessage::EditorSaved).1 == seq![
            CommandModel::Call { request: CallModel::ListHosts, pending: PendingModel::Hosts },
        ],
        forall|i: int|
            0 <= i < app.on_editor(AppMessage::EditorSaved).0.tabs.len() ==> {
                let t = #[trigger] app.on_editor(AppMessage::EditorSaved).0.tabs[i];
                !(t.kind is AddHost) && t.id != app.active_tab_id
            },
{
    model::lemma_filter_members(
        app.tabs,
        |t: TabModel|
            t.id != app.active_tab_id && !(t.kind is AddHost) && !strings::stands_at(
                t.id,
                "edit_"@,
                0,
            ),
    );
}

} // verus!
