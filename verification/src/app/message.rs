//! What happens to the application, and what it asks to be done.
use vstd::prelude::*;

use crate::json::{Json, JsonModel};
use crate::screens::s2_unlock::RememberDuration;
use crate::screens::s3_main::HostItem;
use crate::screens::s4_credential::AuthKind;
use crate::screens::s5_settings::{
    LangChoice,
    Loaded,
    QuickLocation,
    SettingsSection,
    SyncMode,
    VaultModel,
    VaultSettings,
};
use crate::strings;
use crate::text::{Lang, Text};

verus! {

/// What the daemon sends of a session by itself.
#[derive(Debug, Clone)]
pub enum PushMsg {
    Frame { session_id: String, bytes: Vec<u8> },
    SessionClosed { session_id: String, exit_code: Option<u32> },
}

/// A session after a reconnect.
#[derive(Debug, Clone)]
pub struct Mapping {
    pub old_session_id: String,
    pub new_session_id: String,
    /// The daemon had lost the session, and another one took its place.
    pub replaced: bool,
}

#[verifier::ext_equal]
pub struct MappingModel {
    pub old_session_id: Seq<char>,
    pub new_session_id: Seq<char>,
    pub replaced: bool,
}

impl View for Mapping {
    type V = MappingModel;

    open spec fn view(&self) -> MappingModel {
        MappingModel {
            old_session_id: self.old_session_id@,
            new_session_id: self.new_session_id@,
            replaced: self.replaced,
        }
    }
}

/// The mappings of a list.
pub open spec fn mapping_models(list: Seq<Mapping>) -> Seq<MappingModel> {
    Seq::new(list.len(), |i: int| list[i]@)
}

/// What came of a look for a place to sync to.
#[derive(Debug, Clone)]
pub enum QuickResult {
    Path(String),
    ICloudMissing,
    CreateFailed(String),
}

/// What came of reading a file with a key.
#[derive(Debug, Clone)]
pub enum KeyFile {
    Contents(String),
    ReadFailed(String),
}

/// What happens to the application.
#[derive(Debug, Clone)]
pub enum AppMessage {
    OpenLocalTerminal,
    OpenSshTerminal(String),
    TerminalPush(PushMsg),
    TerminalOpened { session_id: String, title: String, host_id: Option<String> },
    /// The stream of a session has ended, at a time in milliseconds.
    TerminalDisconnected { session_id: String, now: u64 },
    TerminalReconnected { mappings: Vec<Mapping> },
    TerminalReconnectFailed(String),
    TerminalReconnectRetry,
    TerminalSetupError(String),
    TerminalInput(Vec<u8>),
    TerminalPaste(Vec<u8>),
    TerminalResize { cols: u16, rows: u16 },
    TerminalScroll(i32),
    TerminalCursorBlink,
    /// A request of a terminal could not be queued.
    TerminalQueueFailed { tab_id: String, message: String },
    WsConnected,
    WsError(String),
    RetryConnection,
    DaemonChecked { locked: bool, vault_exists: bool },
    SwitchTab(String),
    OpenAddHostTab,
    OpenSettingsTab,
    CloseTab(String),
    ToggleConnectPanel,
    CloseConnectPanel,
    ConnectPanelSearch(String),
    QuickConnectHost(String),
    QuickAddHost,
    SetupPassphraseChanged(String),
    SetupConfirmPassphraseChanged(String),
    SetupRiskConfirmed(bool),
    SetupCreateVault,
    SetupVaultCreated,
    UnlockPassphraseChanged(String),
    UnlockRememberChanged(RememberDuration),
    UnlockVault,
    UnlockSuccess,
    UnlockFailed(String, Option<String>),
    UnlockToastHide,
    HostsLoaded(Vec<HostItem>),
    EditHost(String),
    DeleteHostConfirm(String),
    DeleteHost,
    RevealCredential(String),
    ShowCredential(String),
    HideCredential(u64),
    CopyCredential(String),
    ClearClipboard(u64),
    SyncTriggered,
    SyncCompleted(Json),
    LockVault,
    VaultLocked,
    EditorNameChanged(String),
    EditorHostChanged(String),
    EditorUserChanged(String),
    EditorPortChanged(String),
    EditorAuthChanged(AuthKind),
    EditorPasswordChanged(String),
    EditorKeyPathChanged(String),
    EditorPickKeyFile,
    EditorKeyFilePicked(String),
    EditorImportKeyFile,
    EditorKeyFileRead(KeyFile),
    EditorKeyPassphraseChanged(String),
    EditorTagsChanged(String),
    EditorGroupChanged(String),
    EditorNotesChanged(String),
    EditorFocusNext,
    EditorFocusPrevious,
    EditorSave,
    EditorSaved,
    EditorCancel,
    SettingsLoaded(Loaded),
    SettingsSyncModeChanged(SyncMode),
    SettingsSyncPathChanged(String),
    SettingsSyncPickFolder,
    SettingsSyncFolderPicked(String),
    SettingsSyncQuickLocation(QuickLocation),
    SettingsSyncQuickResult(QuickResult),
    SettingsScrollbackChanged(String),
    SettingsTerminalFontFamilyChanged(String),
    SettingsTerminalFontSizeChanged(u16),
    SettingsTerminalCursorBlinkChanged(bool),
    /// A choice of language, with the one that the system would give.
    SettingsLanguageChanged { choice: LangChoice, system: Lang },
    SettingsSectionChanged(SettingsSection),
    SettingsSave,
    SettingsSaved,
    ConflictResolveLocal,
    ConflictResolveRemote,
    ConflictResolved,
    ConflictFileAdopt,
    ConflictFileIgnore,
    ConflictFileHandled,
    RemoteMissingAction(String),
    RemoteMissingHandled,
    BackupUseCurrentToggled(bool),
    BackupPassphraseChanged(String),
    BackupExport,
    BackupExportTo(String),
    BackupExported(Text),
    BackupFailed(Text),
    BackupRestoreChooseFile,
    BackupRestoreFileChosen(String),
    BackupRestorePassphraseChanged(String),
    BackupRestorePreview,
    BackupRestorePreviewed {
        data: Vec<u8>,
        host_count: usize,
        modified_at: String,
        host_names: Vec<String>,
    },
    BackupRestoreConfirm,
    BackupRestored { hosts: Vec<HostItem>, settings: Loaded, warning: Option<String> },
    BackupRestoreFailed(Text),
}

/// A field that can have the focus.
#[derive(Debug, Clone, Copy, PartialEq, Eq, Structural)]
pub enum Field {
    UnlockPassphrase,
    ConnectSearch,
    Terminal,
}

/// What happens after a while.
#[derive(Debug, Clone, Copy, PartialEq, Eq, Structural)]
pub enum Timer {
    UnlockToastHide,
    HideCredential(u64),
    ClearClipboard(u64),
    ReconnectRetry,
}

/// A request to the daemon.
#[derive(Debug)]
pub enum DaemonCall {
    VaultStatus,
    ListHosts,
    CreateVault { passphrase: String },
    Unlock { passphrase: String, remember_seconds: Option<u64> },
    GetSettings,
    RevealCredential { host_id: String },
    Sync,
    Lock,
    UpdateSettings(VaultSettings),
    Send { kind: String, body: Json },
}

#[verifier::ext_equal]
pub enum CallModel {
    VaultStatus,
    ListHosts,
    CreateVault { passphrase: Seq<char> },
    Unlock { passphrase: Seq<char>, remember_seconds: Option<u64> },
    GetSettings,
    RevealCredential { host_id: Seq<char> },
    Sync,
    Lock,
    UpdateSettings(VaultModel),
    Send { kind: Seq<char>, body: JsonModel },
}

impl View for DaemonCall {
    type V = CallModel;

    open spec fn view(&self) -> CallModel {
        match self {
            DaemonCall::VaultStatus => CallModel::VaultStatus,
            DaemonCall::ListHosts => CallModel::ListHosts,
            DaemonCall::CreateVault { passphrase } => CallModel::CreateVault {
                passphrase: passphrase@,
            },
            DaemonCall::Unlock { passphrase, remember_seconds } => CallModel::Unlock {
                passphrase: passphrase@,
                remember_seconds: *remember_seconds,
            },
            DaemonCall::GetSettings => CallModel::GetSettings,
            DaemonCall::RevealCredential { host_id } => CallModel::RevealCredential {
                host_id: host_id@,
            },
            DaemonCall::Sync => CallModel::Sync,
            DaemonCall::Lock => CallModel::Lock,
            DaemonCall::UpdateSettings(settings) => CallModel::UpdateSettings(settings@),
            DaemonCall::Send { kind, body } => CallModel::Send { kind: kind@, body: body@ },
        }
    }
}

/// What the reply to a request is for.
#[derive(Debug)]
pub enum Pending {
    VaultStatus,
    Hosts,
    VaultCreated,
    Unlock,
    Settings,
    HostDeleted,
    Credential,
    HostSaved,
    Sync,
    Locked,
    SettingsSaved,
    ConflictResolved,
    ConflictFileHandled,
    RemoteMissingHandled,
    /// The backup goes to this path.
    Export { path: String, lang: Lang },
    /// The backup that is looked into.
    Preview { data: Vec<u8>, lang: Lang },
    Restore { lang: Lang },
}

#[verifier::ext_equal]
pub enum PendingModel {
    VaultStatus,
    Hosts,
    VaultCreated,
    Unlock,
    Settings,
    HostDeleted,
    Credential,
    HostSaved,
    Sync,
    Locked,
    SettingsSaved,
    ConflictResolved,
    ConflictFileHandled,
    RemoteMissingHandled,
    Export { path: Seq<char>, lang: Lang },
    Preview { data: Seq<u8>, lang: Lang },
    Restore { lang: Lang },
}

impl View for Pending {
    type V = PendingModel;

    open spec fn view(&self) -> PendingModel {
        match self {
            Pending::VaultStatus => PendingModel::VaultStatus,
            Pending::Hosts => PendingModel::Hosts,
            Pending::VaultCreated => PendingModel::VaultCreated,
            Pending::Unlock => PendingModel::Unlock,
            Pending::Settings => PendingModel::Settings,
            Pending::HostDeleted => PendingModel::HostDeleted,
            Pending::Credential => PendingModel::Credential,
            Pending::HostSaved => PendingModel::HostSaved,
            Pending::Sync => PendingModel::Sync,
            Pending::Locked => PendingModel::Locked,
            Pending::SettingsSaved => PendingModel::SettingsSaved,
            Pending::ConflictResolved => PendingModel::ConflictResolved,
            Pending::ConflictFileHandled => PendingModel::ConflictFileHandled,
            Pending::RemoteMissingHandled => PendingModel::RemoteMissingHandled,
            Pending::Export { path, lang } => PendingModel::Export { path: path@, lang: *lang },
            Pending::Preview { data, lang } => PendingModel::Preview { data: data@, lang: *lang },
            Pending::Restore { lang } => PendingModel::Restore { lang: *lang },
        }
    }
}

/// A session that is to be taken up again.
#[derive(Debug)]
pub struct Snapshot {
    pub session_id: String,
    pub rows: u16,
    pub cols: u16,
    pub remote_host_id: Option<String>,
}

#[verifier::ext_equal]
pub struct SnapshotModel {
    pub session_id: Seq<char>,
    pub rows: u16,
    pub cols: u16,
    pub remote_host_id: Option<Seq<char>>,
}

impl View for Snapshot {
    type V = SnapshotModel;

    open spec fn view(&self) -> SnapshotModel {
        SnapshotModel {
            session_id: self.session_id@,
            rows: self.rows,
            cols: self.cols,
            remote_host_id: strings::opt_text(self.remote_host_id),
        }
    }
}

/// The snapshots of a list.
pub open spec fn snapshot_models(list: Seq<Snapshot>) -> Seq<SnapshotModel> {
    Seq::new(list.len(), |i: int| list[i]@)
}

/// What the application asks to be done.
#[derive(Debug)]
pub enum Command {
    Focus(Field),
    SelectAll(Field),
    FocusNext,
    FocusPrevious,
    After { seconds: u64, timer: Timer },
    /// Connect to the daemon after a while. A failure is one of the restoring
    /// of terminals, or one of the connection.
    Connect { delay_seconds: u64, restoring: bool },
    Call { request: DaemonCall, pending: Pending },
    WriteClipboard(String),
    /// Empty the clipboard if it still holds this text.
    ClearClipboardIf(String),
    Unsubscribe(String),
    /// Queue a request without waiting for its reply. Where it cannot be
    /// queued, a tab is told.
    Queue { kind: String, body: Json, notice_tab: Option<String> },
    OpenTerminal { host_id: Option<String>, title: String },
    Restore(Vec<Snapshot>),
    PickKeyFile,
    ImportKeyFile,
    PickSyncFolder,
    FindQuickLocation(QuickLocation),
    PickExportPath,
    PickBackup,
    ReadBackup { path: String, passphrase: String },
    SaveLanguage(LangChoice),
}

#[verifier::ext_equal]
pub enum CommandModel {
    Focus(Field),
    SelectAll(Field),
    FocusNext,
    FocusPrevious,
    After { seconds: u64, timer: Timer },
    Connect { delay_seconds: u64, restoring: bool },
    Call { request: CallModel, pending: PendingModel },
    WriteClipboard(Seq<char>),
    ClearClipboardIf(Seq<char>),
    Unsubscribe(Seq<char>),
    Queue { kind: Seq<char>, body: JsonModel, notice_tab: Option<Seq<char>> },
    OpenTerminal { host_id: Option<Seq<char>>, title: Seq<char> },
    Restore(Seq<SnapshotModel>),
    PickKeyFile,
    ImportKeyFile,
    PickSyncFolder,
    FindQuickLocation(QuickLocation),
    PickExportPath,
    PickBackup,
    ReadBackup { path: Seq<char>, passphrase: Seq<char> },
    SaveLanguage(LangChoice),
}

impl View for Command {
    type V = CommandModel;

    open spec fn view(&self) -> CommandModel {
        match self {
            Command::Focus(field) => CommandModel::Focus(*field),
            Command::SelectAll(field) => CommandModel::SelectAll(*field),
            Command::FocusNext => CommandModel::FocusNext,
            Command::FocusPrevious => CommandModel::FocusPrevious,
            Command::After { seconds, timer } => CommandModel::After {
                seconds: *seconds,
                timer: *timer,
            },
            Command::Connect { delay_seconds, restoring } => CommandModel::Connect {
                delay_seconds: *delay_seconds,
                restoring: *restoring,
            },
            Command::Call { request, pending } => CommandModel::Call {
                request: request@,
                pending: pending@,
            },
            Command::WriteClipboard(text) => CommandModel::WriteClipboard(text@),
            Command::ClearClipboardIf(text) => CommandModel::ClearClipboardIf(text@),
            Command::Unsubscribe(session_id) => CommandModel::Unsubscribe(session_id@),
            Command::Queue { kind, body, notice_tab } => CommandModel::Queue {
                kind: kind@,
                body: body@,
                notice_tab: strings::opt_text(*notice_tab),
            },
            Command::OpenTerminal { host_id, title } => CommandModel::OpenTerminal {
                host_id: strings::opt_text(*host_id),
                title: title@,
            },
            Command::Restore(list) => CommandModel::Restore(snapshot_models(list@)),
            Command::PickKeyFile => CommandModel::PickKeyFile,
            Command::ImportKeyFile => CommandModel::ImportKeyFile,
            Command::PickSyncFolder => CommandModel::PickSyncFolder,
            Command::FindQuickLocation(location) => CommandModel::FindQuickLocation(*location),
            Command::PickExportPath => CommandModel::PickExportPath,
            Command::PickBackup => CommandModel::PickBackup,
            Command::ReadBackup { path, passphrase } => CommandModel::ReadBackup {
                path: path@,
                passphrase: passphrase@,
            },
            Command::SaveLanguage(choice) => CommandModel::SaveLanguage(*choice),
        }
    }
}

/// The commands of a list.
pub open spec fn command_models(list: Seq<Command>) -> Seq<CommandModel> {
    Seq::new(list.len(), |i: int| list[i]@)
}

/// Nothing to do.
pub fn nothing() -> (res: Vec<Command>)
    ensures
        command_models(res@) == Seq::<CommandModel>::empty(),
{
    let res: Vec<Command> = Vec::new();
    proof {
        assert(command_models(res@) =~= Seq::<CommandModel>::empty());
    }
    res
}

/// One thing to do.
pub fn one(command: Command) -> (res: Vec<Command>)
    ensures
        command_models(res@) == seq![command@],
{
    let mut res: Vec<Command> = Vec::new();
    res.push(command);
    proof {
        assert(command_models(res@) =~= seq![command@]);
    }
    res
}

/// One thing more to do.
pub fn push_command(list: &mut Vec<Command>, command: Command)
    ensures
        command_models(final(list)@) == command_models(old(list)@).push(command@),
{
    let ghost before = list@;
    list.push(command);
    proof {
        assert(command_models(list@) =~= command_models(before).push(command@));
    }
}

/// The request whose reply gives the hosts.
pub open spec fn list_hosts() -> Seq<CommandModel> {
    seq![CommandModel::Call { request: CallModel::ListHosts, pending: PendingModel::Hosts }]
}

/// The request whose reply gives the settings.
pub open spec fn get_settings() -> Seq<CommandModel> {
    seq![CommandModel::Call { request: CallModel::GetSettings, pending: PendingModel::Settings }]
}

pub fn ask_hosts() -> (res: Vec<Command>)
    ensures
        command_models(res@) == list_hosts(),
{
    one(Command::Call { request: DaemonCall::ListHosts, pending: Pending::Hosts })
}

pub fn ask_settings() -> (res: Vec<Command>)
    ensures
        command_models(res@) == get_settings(),
{
    one(Command::Call { request: DaemonCall::GetSettings, pending: Pending::Settings })
}

/// A request with one text in its body.
pub open spec fn send_text(
    kind: Seq<char>,
    key: Seq<char>,
    value: Seq<char>,
    pending: PendingModel,
) -> Seq<CommandModel> {
    seq![
        CommandModel::Call {
            request: CallModel::Send { kind, body: crate::json::one_text(key, value) },
            pending,
        },
    ]
}

pub fn ask_with_text(kind: &str, key: &str, value: &str, pending: Pending) -> (res: Vec<Command>)
    ensures
        command_models(res@) == send_text(kind@, key@, value@, pending@),
{
    one(
        Command::Call {
            request: DaemonCall::Send {
                kind: kind.to_string(),
                body: crate::json::text_object(key, value),
            },
            pending,
        },
    )
}

} // verus!
