//! The screens and the tabs of the application.
pub mod agent_approval;
pub mod s0_connection;
pub mod s1_setup;
pub mod s2_unlock;
pub mod s3_main;
pub mod s4_credential;
pub mod s5_settings;
pub mod s6_conflict;
pub mod s7_conflict_file;
pub mod s8_remote_missing;
pub mod s9_backup;
pub mod s_sftp;
pub mod s_terminal;

use vstd::prelude::*;

use crate::strings;
use crate::text::{SpanModel, Text};

verus! {

/// What a tab shows.
#[derive(Debug, PartialEq)]
pub enum TabKind {
    Host { host_id: String },
    Terminal { session_id: String, number: u32 },
    AddHost,
    EditHost { host_id: String },
    Settings,
}

/// A tab.
#[derive(Debug, PartialEq)]
pub struct Tab {
    pub id: String,
    pub name: Text,
    pub kind: TabKind,
}

#[verifier::ext_equal]
pub enum TabKindModel {
    Host { host_id: Seq<char> },
    Terminal { session_id: Seq<char>, number: u32 },
    AddHost,
    EditHost { host_id: Seq<char> },
    Settings,
}

#[verifier::ext_equal]
pub struct TabModel {
    pub id: Seq<char>,
    pub name: Seq<SpanModel>,
    pub kind: TabKindModel,
}

impl View for TabKind {
    type V = TabKindModel;

    open spec fn view(&self) -> TabKindModel {
        match self {
            TabKind::Host { host_id } => TabKindModel::Host { host_id: host_id@ },
            TabKind::Terminal { session_id, number } => TabKindModel::Terminal {
                session_id: session_id@,
                number: *number,
            },
            TabKind::AddHost => TabKindModel::AddHost,
            TabKind::EditHost { host_id } => TabKindModel::EditHost { host_id: host_id@ },
            TabKind::Settings => TabKindModel::Settings,
        }
    }
}

impl View for Tab {
    type V = TabModel;

    open spec fn view(&self) -> TabModel {
        TabModel { id: self.id@, name: self.name@, kind: self.kind@ }
    }
}

/// The tabs of a list.
pub open spec fn tab_models(tabs: Seq<Tab>) -> Seq<TabModel> {
    Seq::new(tabs.len(), |i: int| tabs[i]@)
}

impl Clone for TabKind {
    fn clone(&self) -> (copy: Self)
        ensures
            copy@ == self@,
    {
        match self {
            TabKind::Host { host_id } => TabKind::Host { host_id: host_id.clone() },
            TabKind::Terminal { session_id, number } => TabKind::Terminal {
                session_id: session_id.clone(),
                number: *number,
            },
            TabKind::AddHost => TabKind::AddHost,
            TabKind::EditHost { host_id } => TabKind::EditHost { host_id: host_id.clone() },
            TabKind::Settings => TabKind::Settings,
        }
    }
}

impl Clone for Tab {
    fn clone(&self) -> (copy: Self)
        ensures
            copy@ == self@,
    {
        Tab { id: self.id.clone(), name: self.name.clone(), kind: self.kind.clone() }
    }
}

impl TabModel {
    pub open spec fn host(host_id: Seq<char>, name: Seq<SpanModel>) -> TabModel {
        TabModel { id: host_id, name, kind: TabKindModel::Host { host_id } }
    }

    pub open spec fn add_host(name: Seq<SpanModel>) -> TabModel {
        TabModel { id: "add_host"@, name, kind: TabKindModel::AddHost }
    }

    pub open spec fn edit_host(host_id: Seq<char>, name: Seq<SpanModel>) -> TabModel {
        TabModel { id: "edit_"@ + host_id, name, kind: TabKindModel::EditHost { host_id } }
    }

    pub open spec fn settings(name: Seq<SpanModel>) -> TabModel {
        TabModel { id: "settings"@, name, kind: TabKindModel::Settings }
    }

    pub open spec fn terminal(session_id: Seq<char>, number: u32, name: Seq<SpanModel>) -> TabModel {
        TabModel {
            id: "terminal:"@ + session_id,
            name,
            kind: TabKindModel::Terminal { session_id, number },
        }
    }
}

impl Tab {
    /// The tab of a host; its id is that of the host.
    pub fn host(host_id: String, name: Text) -> (res: Self)
        ensures
            res@ == TabModel::host(host_id@, name@),
    {
        Tab { id: host_id.clone(), name, kind: TabKind::Host { host_id } }
    }

    /// The tab in which a host is added.
    pub fn add_host(name: Text) -> (res: Self)
        ensures
            res@ == TabModel::add_host(name@),
    {
        Tab { id: "add_host".to_string(), name, kind: TabKind::AddHost }
    }

    /// The tab in which a host is edited.
    pub fn edit_host(host_id: String, name: Text) -> (res: Self)
        ensures
            res@ == TabModel::edit_host(host_id@, name@),
    {
        Tab {
            id: strings::concat("edit_", host_id.as_str()),
            name,
            kind: TabKind::EditHost { host_id },
        }
    }

    /// The tab of the settings.
    pub fn settings(name: Text) -> (res: Self)
        ensures
            res@ == TabModel::settings(name@),
    {
        Tab { id: "settings".to_string(), name, kind: TabKind::Settings }
    }

    /// The tab of a terminal; its id keeps the session that it was opened with.
    pub fn terminal(session_id: String, number: u32, name: Text) -> (res: Self)
        ensures
            res@ == TabModel::terminal(session_id@, number, name@),
    {
        Tab {
            id: strings::concat("terminal:", session_id.as_str()),
            name,
            kind: TabKind::Terminal { session_id, number },
        }
    }
}

/// Tabs of hosts, of edited hosts and of terminals have the same id only for
/// the same host or session.
pub proof fn law_tab_ids_are_told_apart(
    a: Seq<char>,
    b: Seq<char>,
    number: u32,
    name: Seq<SpanModel>,
)
    ensures
        TabModel::edit_host(a, name).id == TabModel::edit_host(b, name).id ==> a == b,
        TabModel::terminal(a, number, name).id == TabModel::terminal(b, number, name).id ==> a == b,
        TabModel::edit_host(a, name).id != TabModel::terminal(b, number, name).id,
        TabModel::edit_host(a, name).id != TabModel::settings(name).id,
        TabModel::edit_host(a, name).id != TabModel::add_host(name).id,
        TabModel::terminal(a, number, name).id != TabModel::settings(name).id,
        TabModel::terminal(a, number, name).id != TabModel::add_host(name).id,
        TabModel::settings(name).id != TabModel::add_host(name).id,
{
    reveal_strlit("edit_");
    reveal_strlit("terminal:");
    reveal_strlit("settings");
    reveal_strlit("add_host");
    let edit = "edit_"@;
    let term = "terminal:"@;
    assert((edit + a).skip(5) =~= a);
    assert((edit + b).skip(5) =~= b);
    assert((term + a).skip(9) =~= a);
    assert((term + b).skip(9) =~= b);
    assert((edit + a)[0] == 'e');
    assert((term + a)[0] == 't');
    assert((term + b)[0] == 't');
    assert("settings"@[0] == 's');
    assert("add_host"@[0] == 'a');
}

/// What the window shows: before the vault is open, the main screen with its
/// tabs, and the screens that ask for a decision.
#[derive(Debug)]
pub enum Screen {
    ConnectionFailure(s0_connection::State),
    Setup(s1_setup::State),
    Unlock(s2_unlock::State),
    Main(s3_main::State),
    Conflict(s6_conflict::State),
    ConflictFile(s7_conflict_file::State),
    RemoteMissing(s8_remote_missing::State),
}

#[verifier::ext_equal]
pub enum ScreenModel {
    ConnectionFailure(Seq<SpanModel>),
    Setup(s1_setup::StateModel),
    Unlock(s2_unlock::StateModel),
    Main(s3_main::StateModel),
    Conflict(s6_conflict::StateModel),
    ConflictFile(s7_conflict_file::StateModel),
    RemoteMissing,
}

impl View for Screen {
    type V = ScreenModel;

    open spec fn view(&self) -> ScreenModel {
        match self {
            Screen::ConnectionFailure(s) => ScreenModel::ConnectionFailure(s.error_message@),
            Screen::Setup(s) => ScreenModel::Setup(s@),
            Screen::Unlock(s) => ScreenModel::Unlock(s@),
            Screen::Main(s) => ScreenModel::Main(s@),
            Screen::Conflict(s) => ScreenModel::Conflict(s@),
            Screen::ConflictFile(s) => ScreenModel::ConflictFile(s@),
            Screen::RemoteMissing(_) => ScreenModel::RemoteMissing,
        }
    }
}

/// A tab knows what it was opened for.
pub proof fn law_tabs_know_what_they_show(
    id: Seq<char>,
    number: u32,
    name: Seq<SpanModel>,
)
    ensures
        TabModel::host(id, name).kind == (TabKindModel::Host { host_id: id }),
        TabModel::edit_host(id, name).kind == (TabKindModel::EditHost { host_id: id }),
        TabModel::terminal(id, number, name).kind == (TabKindModel::Terminal {
            session_id: id,
            number,
        }),
        TabModel::settings(name).kind is Settings,
        TabModel::add_host(name).kind is AddHost,
        TabModel::host(id, name).id == id,
        TabModel::host(id, name).name == name,
        TabModel::edit_host(id, name).name == name,
        TabModel::terminal(id, number, name).name == name,
        TabModel::settings(name).name == name,
        TabModel::add_host(name).name == name,
{
}

} // verus!
