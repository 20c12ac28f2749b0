//! The application: what messages change and ask for.
use vida::app::hosts::{bytes_json, parse_backup_bytes, parse_hosts, parse_remote_names};
use vida::app::message::{
    AppMessage, Command, DaemonCall, Field, KeyFile, Mapping, Pending, PushMsg, QuickResult,
    Snapshot, Timer,
};
use vida::app::reply::{backup_read, export_written, resolve, CallError, Followup, Read};
use vida::app::sessions::{Opening, OpeningStep, Restoring, RestoringStep};
use vida::app::terminal::classify_ssh_failure;
use vida::app::view::{editor_focus_event, Content};
use vida::app::{self, SyncState, TabSession, VidaApp};
use vida::json::{self, Json};
use vida::screens::s2_unlock::RememberDuration;
use vida::screens::s3_main::{self, HostItem};
use vida::screens::s4_credential::AuthKind;
use vida::screens::s5_settings::{LangChoice, Loaded, SettingsSection, SyncMode, VaultSettings};
use vida::screens::s_terminal::TerminalSession;
use vida::screens::{Screen, Tab, TabKind};
use vida::term::keys::{Key, Modifiers, Named, Platform};
use vida::term::primitive::{FontSize, TerminalAppearance};
use vida::text::{I18n, Lang, Text};

const NONE: Modifiers = Modifiers { shift: false, control: false, alt: false, logo: false };

fn value(text: &str) -> Json {
    json::parse(text).expect("valid text")
}

fn host(id: &str, name: &str) -> HostItem {
    HostItem {
        id: id.to_string(),
        name: name.to_string(),
        host: "example.test".to_string(),
        user: "root".to_string(),
        port: 22,
        tags: vec![],
        group: None,
        color: None,
        auth_kind: "password".to_string(),
        notes: None,
        agent_trust: "ask".to_string(),
    }
}

fn main_app() -> VidaApp {
    let (mut app, commands) = app::new(Lang::En);
    assert!(matches!(
        commands[..],
        [Command::Connect { delay_seconds: 0, restoring: false }]
    ));
    app.screen = Screen::Main(s3_main::State {
        revealed_credential: None,
        credential_copied: false,
    });
    app
}

fn connected_app() -> VidaApp {
    let mut app = main_app();
    app.connected = true;
    app
}

fn send(app: &mut VidaApp, message: AppMessage) -> Vec<Command> {
    assert!(app.accepts(&message));
    app.update(message)
}

fn app_with_two_terminal_tabs() -> VidaApp {
    let mut app = main_app();
    for (session_id, number) in [("session-a", 1), ("session-b", 2)] {
        let tab = Tab::terminal(
            session_id.to_string(),
            number,
            Text::plain(format!("Local terminal {number}")),
        );
        app.terminal_sessions.push(TabSession {
            tab_id: tab.id.clone(),
            session: TerminalSession::new(
                session_id.to_string(),
                None,
                Text::plain(format!("Local terminal {number}")),
                40,
                100,
                TerminalAppearance::default(),
            ),
        });
        app.tabs.push(tab);
    }
    app.active_tab_id = "terminal:session-a".to_string();
    app
}

fn session<'a>(app: &'a VidaApp, tab_id: &str) -> Option<&'a TerminalSession> {
    app.terminal_sessions
        .iter()
        .find(|slot| slot.tab_id == tab_id)
        .map(|slot| &slot.session)
}

#[test]
fn editor_tab_event_maps_forward_and_reverse_focus() {
    let shift = Modifiers { shift: true, ..NONE };
    for platform in [Platform::MacOs, Platform::Other] {
        let forward = editor_focus_event(&Key::Named(Named::Tab), NONE, false, platform);
        let reverse = editor_focus_event(&Key::Named(Named::Tab), shift, false, platform);

        assert!(matches!(forward, Some(AppMessage::EditorFocusNext)));
        assert!(matches!(reverse, Some(AppMessage::EditorFocusPrevious)));
    }
}

#[test]
fn editor_tab_event_does_not_capture_command_tab() {
    let logo = Modifiers { logo: true, ..NONE };
    let control = Modifiers { control: true, ..NONE };
    assert!(editor_focus_event(&Key::Named(Named::Tab), logo, false, Platform::MacOs).is_none());
    assert!(editor_focus_event(&Key::Named(Named::Tab), control, false, Platform::Other).is_none());
    assert!(editor_focus_event(&Key::Named(Named::Tab), NONE, true, Platform::Other).is_none());
    assert!(editor_focus_event(&Key::Named(Named::Enter), NONE, false, Platform::Other).is_none());
}

#[test]
fn backup_bytes_accept_full_byte_range() {
    assert_eq!(
        parse_backup_bytes(&value(r#"{"data": [0, 1, 127, 128, 254, 255]}"#)),
        Ok(vec![0, 1, 127, 128, 254, 255])
    );
}

#[test]
fn backup_bytes_reject_missing_or_out_of_range_values() {
    assert_eq!(parse_backup_bytes(&value("{}")), Err(()));
    assert_eq!(parse_backup_bytes(&value(r#"{"data": [256]}"#)), Err(()));
}

#[test]
fn backup_bytes_round_trip() {
    let bytes: Vec<u8> = (0..=255).collect();
    let sent = Json::Object(vec![("data".to_string(), bytes_json(&bytes))]);
    assert_eq!(parse_backup_bytes(&sent), Ok(bytes));
}

#[test]
fn ssh_failure_classifier_turns_exit_255_output_into_actionable_copy() {
    let i18n = I18n::new(Lang::ZhCn);
    assert_eq!(
        classify_ssh_failure(&i18n, "Permission denied (publickey,password)"),
        i18n.tr("terminal_ssh_auth_failed")
    );
    assert_eq!(
        classify_ssh_failure(&i18n, "ssh: connect to host x port 22: Connection refused"),
        i18n.tr("terminal_ssh_connection_refused")
    );
    assert_eq!(classify_ssh_failure(&i18n, ""), i18n.tr("terminal_ssh_failed_generic"));
    assert_eq!(
        classify_ssh_failure(&i18n, "No route to host"),
        i18n.tr("terminal_ssh_unreachable")
    );
    assert_eq!(
        classify_ssh_failure(&i18n, "Could not resolve hostname x"),
        i18n.tr("terminal_ssh_dns_failed")
    );
    assert_eq!(
        classify_ssh_failure(&i18n, "Host key verification failed."),
        i18n.tr("terminal_ssh_host_key_failed")
    );
}

#[test]
fn terminal_closed_event_updates_only_matching_tab_session() {
    let mut app = app_with_two_terminal_tabs();
    let _ = send(
        &mut app,
        AppMessage::TerminalPush(PushMsg::SessionClosed {
            session_id: "session-b".to_string(),
            exit_code: Some(7),
        }),
    );

    assert!(!session(&app, "terminal:session-a").expect("kept").closed);
    assert!(session(&app, "terminal:session-b").expect("kept").closed);
    assert_eq!(session(&app, "terminal:session-b").expect("kept").exit_code, Some(7));
}

#[test]
fn closing_terminal_tab_removes_only_its_session_and_selects_neighbor() {
    let mut app = app_with_two_terminal_tabs();
    let _ = send(&mut app, AppMessage::CloseTab("terminal:session-a".to_string()));

    assert!(session(&app, "terminal:session-a").is_none());
    assert!(session(&app, "terminal:session-b").is_some());
    assert_eq!(app.active_tab_id, "terminal:session-b");
}

#[test]
fn daemon_disconnect_preserves_terminal_tabs_for_unlock_restore() {
    let mut app = app_with_two_terminal_tabs();
    let terminal_tab_ids: Vec<String> = app
        .tabs
        .iter()
        .filter(|tab| matches!(tab.kind, TabKind::Terminal { .. }))
        .map(|tab| tab.id.clone())
        .collect();

    let _ = send(
        &mut app,
        AppMessage::TerminalDisconnected { session_id: "session-a".to_string(), now: 0 },
    );

    assert!(app.terminal_restore_pending);
    assert!(app.terminal_sessions.iter().all(|slot| slot.session.closed));
    assert!(terminal_tab_ids
        .iter()
        .all(|id| app.tabs.iter().any(|tab| &tab.id == id)));

    let _ = send(&mut app, AppMessage::LockVault);
    assert!(app.terminal_restore_pending);
    assert_eq!(app.terminal_sessions.len(), 2);
    assert!(terminal_tab_ids
        .iter()
        .all(|id| app.tabs.iter().any(|tab| &tab.id == id)));

    app.close_all_terminal_sessions();
    assert!(!app.terminal_restore_pending);
    assert!(app.terminal_sessions.is_empty());
}

#[test]
fn a_cut_connection_is_tried_again_once() {
    let mut app = app_with_two_terminal_tabs();
    let first = send(
        &mut app,
        AppMessage::TerminalDisconnected { session_id: "session-a".to_string(), now: 0 },
    );
    assert!(matches!(
        first[..],
        [Command::Connect { delay_seconds: 5, restoring: true }]
    ));
    let second = send(
        &mut app,
        AppMessage::TerminalDisconnected { session_id: "session-b".to_string(), now: 1 },
    );
    assert!(second.is_empty());
    assert!(send(&mut app, AppMessage::RetryConnection).is_empty());
}

#[test]
fn reconnected_sessions_get_their_new_ids() {
    let mut app = app_with_two_terminal_tabs();
    let _ = send(
        &mut app,
        AppMessage::TerminalDisconnected { session_id: "session-a".to_string(), now: 0 },
    );
    let _ = send(
        &mut app,
        AppMessage::TerminalReconnected {
            mappings: vec![
                Mapping {
                    old_session_id: "session-a".to_string(),
                    new_session_id: "session-a".to_string(),
                    replaced: false,
                },
                Mapping {
                    old_session_id: "session-b".to_string(),
                    new_session_id: "session-c".to_string(),
                    replaced: true,
                },
            ],
        },
    );
    assert!(!app.terminal_restore_pending);
    let kept = session(&app, "terminal:session-a").expect("kept");
    assert!(!kept.closed && kept.notice.is_none());
    let replaced = session(&app, "terminal:session-b").expect("kept");
    assert_eq!(replaced.session_id, "session-c");
    assert_eq!(replaced.notice, Some(app.i18n.tr("terminal_session_replaced")));
}

#[test]
fn locking_closes_every_terminal() {
    let mut app = app_with_two_terminal_tabs();
    app.connected = true;
    let commands = send(&mut app, AppMessage::LockVault);
    assert!(app.terminal_sessions.is_empty() && app.tabs.is_empty());
    assert!(matches!(
        commands.last(),
        Some(Command::Call { request: DaemonCall::Lock, pending: Pending::Locked })
    ));
    let closed: Vec<&str> = commands
        .iter()
        .filter_map(|command| match command {
            Command::Queue { kind, .. } => Some(kind.as_str()),
            _ => None,
        })
        .collect();
    assert_eq!(closed, vec!["CloseSession", "CloseSession"]);
    let _ = send(&mut app, AppMessage::VaultLocked);
    assert!(matches!(app.screen, Screen::Unlock(_)));
}

#[test]
fn a_vault_is_made_unlocked_or_shown() {
    let (mut app, _) = app::new(Lang::En);
    let asked = send(&mut app, AppMessage::WsConnected);
    assert!(matches!(
        asked[..],
        [Command::Call { request: DaemonCall::VaultStatus, pending: Pending::VaultStatus }]
    ));
    let _ = send(&mut app, AppMessage::DaemonChecked { locked: true, vault_exists: false });
    assert!(matches!(app.screen, Screen::Setup(_)));
    let _ = send(&mut app, AppMessage::SetupPassphraseChanged("pw".to_string()));
    let made = send(&mut app, AppMessage::SetupCreateVault);
    assert!(matches!(
        &made[..],
        [Command::Call { request: DaemonCall::CreateVault { passphrase }, .. }] if passphrase == "pw"
    ));
    let _ = send(&mut app, AppMessage::DaemonChecked { locked: true, vault_exists: true });
    assert!(matches!(app.screen, Screen::Unlock(_)));
    let _ = send(&mut app, AppMessage::UnlockPassphraseChanged("pw".to_string()));
    let unlocked = send(&mut app, AppMessage::UnlockVault);
    assert!(matches!(
        &unlocked[..],
        [Command::Call {
            request: DaemonCall::Unlock { passphrase, remember_seconds: None },
            ..
        }] if passphrase == "pw"
    ));
    let _ = send(&mut app, AppMessage::UnlockRememberChanged(RememberDuration::SevenDays));
    let kept = send(&mut app, AppMessage::UnlockVault);
    assert!(matches!(
        &kept[..],
        [Command::Call {
            request: DaemonCall::Unlock { passphrase, remember_seconds: Some(604_800) },
            ..
        }] if passphrase == "pw"
    ));
    let failed = send(&mut app, AppMessage::UnlockFailed("no".to_string(), None));
    assert!(matches!(
        failed[..],
        [
            Command::Focus(Field::UnlockPassphrase),
            Command::SelectAll(Field::UnlockPassphrase),
            Command::After { seconds: 3, timer: Timer::UnlockToastHide },
        ]
    ));
    let listed = send(&mut app, AppMessage::DaemonChecked { locked: false, vault_exists: true });
    assert!(matches!(
        listed[..],
        [Command::Call { request: DaemonCall::ListHosts, pending: Pending::Hosts }]
    ));
}

#[test]
fn requests_need_a_connection() {
    let app = main_app();
    assert!(!app.accepts(&AppMessage::SyncTriggered));
    assert!(!app.accepts(&AppMessage::EditorSaved));
    assert!(connected_app().accepts(&AppMessage::SyncTriggered));
}

#[test]
fn an_authentication_failure_loses_its_mark() {
    let mut app = connected_app();
    let _ = send(&mut app, AppMessage::WsError("AUTH_FAILED:token".to_string()));
    match &app.screen {
        Screen::ConnectionFailure(state) => {
            assert_eq!(state.error_message, Text::plain("token".to_string()))
        }
        other => panic!("{other:?}"),
    }
}

#[test]
fn host_tabs_follow_the_hosts() {
    let mut app = connected_app();
    let _ = send(&mut app, AppMessage::HostsLoaded(vec![host("a", "one"), host("b", "two")]));
    let names: Vec<&Text> = app.tabs.iter().map(|tab| &tab.name).collect();
    assert_eq!(
        names,
        vec![&Text::plain("one".to_string()), &Text::plain("two".to_string())]
    );
    let first = app.tabs[0].id.clone();
    let _ = send(&mut app, AppMessage::SwitchTab(first.clone()));
    let _ = send(&mut app, AppMessage::HostsLoaded(vec![host("b", "renamed")]));
    assert_eq!(app.tabs.len(), 1);
    assert_ne!(app.active_tab_id, first);
}

#[test]
fn connecting_makes_a_host_recent() {
    let mut app = connected_app();
    let _ = send(&mut app, AppMessage::HostsLoaded(vec![host("a", "one"), host("b", "two")]));
    for id in ["a", "b", "a"] {
        let _ = send(&mut app, AppMessage::QuickConnectHost(id.to_string()));
    }
    assert_eq!(app.recent_host_ids, ["a", "b"]);
}

#[test]
fn a_credential_hides_by_itself() {
    let mut app = connected_app();
    let _ = send(&mut app, AppMessage::HostsLoaded(vec![host("a", "one")]));
    let tab = app.tabs[0].id.clone();
    let _ = send(&mut app, AppMessage::SwitchTab(tab.clone()));
    let shown = send(&mut app, AppMessage::ShowCredential("secret".to_string()));
    let token = match shown[..] {
        [Command::After { timer: Timer::HideCredential(token), .. }] => token,
        _ => panic!("{shown:?}"),
    };
    let revealed = |app: &VidaApp| match &app.screen {
        Screen::Main(state) => state.revealed_credential.is_some(),
        _ => false,
    };
    assert!(revealed(&app));
    let _ = send(&mut app, AppMessage::HideCredential(token + 1));
    assert!(revealed(&app));
    let _ = send(&mut app, AppMessage::HideCredential(token));
    assert!(!revealed(&app));
}

#[test]
fn only_the_copied_credential_is_cleared() {
    let mut app = connected_app();
    let first = send(&mut app, AppMessage::CopyCredential("one".to_string()));
    assert!(matches!(&first[0], Command::WriteClipboard(text) if text == "one"));
    let second = send(&mut app, AppMessage::CopyCredential("two".to_string()));
    let token = |commands: &Vec<Command>| match commands[1] {
        Command::After { timer: Timer::ClearClipboard(token), .. } => token,
        _ => panic!("{commands:?}"),
    };
    assert!(send(&mut app, AppMessage::ClearClipboard(token(&first))).is_empty());
    let cleared = send(&mut app, AppMessage::ClearClipboard(token(&second)));
    assert!(matches!(&cleared[..], [Command::ClearClipboardIf(text)] if text == "two"));
}

#[test]
fn a_host_is_edited_and_saved() {
    let mut app = connected_app();
    let _ = send(&mut app, AppMessage::OpenAddHostTab);
    assert!(app.editor_state.is_some());
    let _ = send(&mut app, AppMessage::EditorNameChanged("box".to_string()));
    let _ = send(&mut app, AppMessage::EditorAuthChanged(AuthKind::KeyInline));
    let _ = send(&mut app, AppMessage::EditorKeyFileRead(KeyFile::Contents("KEY".to_string())));
    let saved = send(&mut app, AppMessage::EditorSave);
    match &saved[..] {
        [Command::Call { request: DaemonCall::Send { body, .. }, pending: Pending::HostSaved }] => {
            let sent = body.get("host").expect("host");
            assert_eq!(sent.str_at("name"), Some("box"));
            assert_eq!(
                sent.get("auth").and_then(|auth| auth.str_at("private_key")),
                Some("KEY")
            );
        }
        other => panic!("{other:?}"),
    }
    let _ = send(&mut app, AppMessage::EditorSaved);
    assert!(app.editor_state.is_none());
}

fn loaded() -> Loaded {
    Loaded {
        settings: VaultSettings {
            s3_endpoint: Some("https://example.invalid".to_string()),
            s3_bucket: None,
            s3_access_key: None,
            s3_secret_key: None,
            sync_local_path: None,
            scrollback_lines: 4096,
            terminal_font_family: "Menlo".to_string(),
            terminal_font_size: FontSize::points(15),
            terminal_cursor_blink: false,
        },
        language: None,
        faces: vec![],
    }
}

#[test]
fn settings_are_changed_and_saved() {
    let mut app = connected_app();
    let _ = send(&mut app, AppMessage::SettingsLoaded(loaded()));
    let _ = send(&mut app, AppMessage::SettingsSectionChanged(SettingsSection::Sync));
    let _ = send(&mut app, AppMessage::SettingsSyncModeChanged(SyncMode::Local));
    let _ = send(
        &mut app,
        AppMessage::SettingsSyncQuickResult(QuickResult::Path("/vault".to_string())),
    );
    let _ = send(&mut app, AppMessage::SettingsScrollbackChanged("100".to_string()));
    let saved = send(&mut app, AppMessage::SettingsSave);
    match &saved[..] {
        [Command::Call { request: DaemonCall::UpdateSettings(settings), .. }] => {
            assert_eq!(settings.sync_local_path.as_deref(), Some("/vault"));
            assert_eq!(settings.scrollback_lines, 100);
            assert_eq!(settings.s3_endpoint.as_deref(), Some("https://example.invalid"));
        }
        other => panic!("{other:?}"),
    }
    let _ = send(&mut app, AppMessage::SettingsSaved);
    assert!(app.settings_state.as_ref().expect("open").saved);
}

#[test]
fn another_language_renames_the_terminals() {
    let mut app = app_with_two_terminal_tabs();
    let _ = send(
        &mut app,
        AppMessage::SettingsLanguageChanged { choice: LangChoice::System, system: Lang::ZhCn },
    );
    assert_eq!(app.i18n.lang, Lang::ZhCn);
    assert_eq!(
        app.tabs[1].name,
        I18n::new(Lang::ZhCn).trf1("terminal_local_numbered", "2".to_string())
    );
    assert_eq!(app.tabs.len(), 2);
}

#[test]
fn a_sync_shows_what_needs_a_decision() {
    let mut app = connected_app();
    let _ = send(&mut app, AppMessage::HostsLoaded(vec![host("a", "one")]));
    let _ = send(&mut app, AppMessage::SyncTriggered);
    assert_eq!(app.sync_state, SyncState::Syncing);
    let _ = send(
        &mut app,
        AppMessage::SyncCompleted(value(r#"{"status": "remote_missing"}"#)),
    );
    assert_eq!(app.sync_state, SyncState::NeedsAttention);
    assert!(matches!(app.screen, Screen::RemoteMissing(_)));
    let _ = send(&mut app, AppMessage::SyncCompleted(value(r#"{"status": "conflict"}"#)));
    match &app.screen {
        Screen::Conflict(state) => assert_eq!(state.local_hosts, ["one"]),
        other => panic!("{other:?}"),
    }
    let _ = send(
        &mut app,
        AppMessage::SyncCompleted(value(
            r#"{"status": "conflict_files_detected", "files": [{"path": "/c", "pattern": "Syncthing"}, {}]}"#,
        )),
    );
    let adopted = send(&mut app, AppMessage::ConflictFileAdopt);
    match &adopted[..] {
        [Command::Call { request: DaemonCall::Send { kind, body }, .. }] => {
            assert_eq!(kind, "AdoptConflictFile");
            assert_eq!(body.str_at("path"), Some("/c"));
        }
        other => panic!("{other:?}"),
    }
    let _ = send(&mut app, AppMessage::SyncCompleted(value("{}")));
    assert_eq!(app.sync_state, SyncState::Synced);
}

#[test]
fn a_backup_is_validated_before_it_is_restored() {
    let mut app = connected_app();
    let _ = send(&mut app, AppMessage::SettingsLoaded(loaded()));
    assert!(send(&mut app, AppMessage::BackupRestoreConfirm).is_empty());
    let _ = send(&mut app, AppMessage::BackupRestoreFileChosen("/b".to_string()));
    let _ = send(&mut app, AppMessage::BackupRestorePassphraseChanged("pw".to_string()));
    let asked = send(&mut app, AppMessage::BackupRestorePreview);
    assert!(matches!(
        &asked[..],
        [Command::ReadBackup { path, passphrase }] if path == "/b" && passphrase == "pw"
    ));
    let _ = send(
        &mut app,
        AppMessage::BackupRestorePreviewed {
            data: vec![1, 2],
            host_count: 1,
            modified_at: "then".to_string(),
            host_names: vec!["one".to_string()],
        },
    );
    let _ = send(&mut app, AppMessage::BackupRestorePassphraseChanged("other".to_string()));
    assert!(send(&mut app, AppMessage::BackupRestoreConfirm).is_empty());
}

#[test]
fn keys_reach_the_session_of_the_active_tab() {
    let mut app = app_with_two_terminal_tabs();
    app.connected = true;
    let sent = send(&mut app, AppMessage::TerminalInput(vec![1, 2]));
    match &sent[..] {
        [Command::Queue { body, .. }] => {
            assert_eq!(Some(body), json::parse(r#"{"data": [1, 2], "session_id": "session-a"}"#).as_ref());
        }
        other => panic!("{other:?}"),
    }
    let scrolled = send(&mut app, AppMessage::TerminalScroll(-3));
    match &scrolled[..] {
        [Command::Queue { body, .. }] => {
            assert_eq!(body.get("lines").and_then(Json::as_i64), Some(-3))
        }
        other => panic!("{other:?}"),
    }
}

#[test]
fn an_opened_session_gets_a_tab() {
    let mut app = connected_app();
    let asked = send(&mut app, AppMessage::OpenLocalTerminal);
    assert!(matches!(&asked[..], [Command::OpenTerminal { host_id: None, .. }]));
    assert!(send(&mut app, AppMessage::OpenLocalTerminal).is_empty());
    let _ = send(
        &mut app,
        AppMessage::TerminalOpened {
            session_id: "s".to_string(),
            title: String::new(),
            host_id: None,
        },
    );
    assert_eq!(app.active_tab_id, "terminal:s");
    assert_eq!(app.tabs[0].name, app.i18n.trf1("terminal_local_numbered", "1".to_string()));
    assert!(matches!(app.shown().content, Content::Terminal(0)));
    let streams = app.subscription();
    assert_eq!(streams.streams.len(), 1);
}

#[test]
fn hosts_are_read_from_replies() {
    let read = parse_hosts(&value(
        r#"[{"id": "a", "name": "one", "host": "h", "user": "u", "port": 22, "tags": ["t", 1],
             "auth_kind": "key"}, {"id": "b"}]"#,
    ));
    assert_eq!(read.len(), 1);
    assert_eq!(read[0].tags, ["t"]);
    assert_eq!(read[0].agent_trust, "ask");
    assert_eq!(parse_remote_names(&value("{}")), Vec::<String>::new());
}

fn error() -> CallError {
    CallError {
        text: "whole".to_string(),
        message: "said".to_string(),
        category: Some("auth".to_string()),
    }
}

#[test]
fn replies_become_messages() {
    assert!(matches!(
        resolve(Pending::VaultStatus, Ok(value("{}"))),
        Followup::Message(AppMessage::DaemonChecked { locked: true, vault_exists: false })
    ));
    assert!(matches!(
        resolve(Pending::Unlock, Err(error())),
        Followup::Message(AppMessage::UnlockFailed(message, Some(_))) if message == "said"
    ));
    assert!(matches!(
        resolve(Pending::Hosts, Err(error())),
        Followup::Message(AppMessage::WsError(message)) if message == "whole"
    ));
    let preview = resolve(
        Pending::Preview { data: vec![9], lang: Lang::En },
        Ok(value(r#"{"host_count": 2, "modified_at": "then", "host_names": ["a", "b"]}"#)),
    );
    assert!(matches!(
        preview,
        Followup::Message(AppMessage::BackupRestorePreviewed { host_count: 2, .. })
    ));
    assert!(matches!(
        resolve(Pending::Preview { data: vec![9], lang: Lang::En }, Ok(value("{}"))),
        Followup::Message(AppMessage::BackupRestoreFailed(_))
    ));
    assert!(matches!(
        resolve(
            Pending::Export { path: "/b".to_string(), lang: Lang::En },
            Ok(value(r#"{"data": [1]}"#))
        ),
        Followup::Write { data, .. } if data == [1]
    ));
}

#[test]
fn backups_are_written_and_read() {
    assert!(matches!(
        export_written("/b".to_string(), 3, None, Lang::En),
        AppMessage::BackupExported(_)
    ));
    assert!(matches!(
        export_written("/b".to_string(), 3, Some("full".to_string()), Lang::En),
        AppMessage::BackupFailed(_)
    ));
    let read = backup_read(Ok(vec![7]), "/b".to_string(), "pw".to_string(), Lang::En);
    match read {
        Read::Ask(Command::Call { pending: Pending::Preview { data, .. }, .. }) => {
            assert_eq!(data, [7])
        }
        other => panic!("{other:?}"),
    }
    assert!(matches!(
        backup_read(Err("gone".to_string()), "/b".to_string(), "pw".to_string(), Lang::En),
        Read::Message(AppMessage::BackupRestoreFailed(_))
    ));
}

#[test]
fn a_session_is_opened_and_subscribed_to() {
    let (request, opening) = Opening::begin(Some("h".to_string()));
    assert_eq!(request.kind, "OpenSshSession");
    assert_eq!(
        Some(request.body),
        json::parse(r#"{"cols": 100, "host_id": "h", "rows": 40}"#)
    );
    let opening = match opening.next(Ok(value(r#"{"session_id": "s"}"#))) {
        OpeningStep::Send(request, opening) => {
            assert_eq!(request.kind, "SubscribeSession");
            opening
        }
        other => panic!("{other:?}"),
    };
    assert!(matches!(
        opening.next(Ok(Json::Null)),
        OpeningStep::Opened(id) if id == "s"
    ));
    let (_, failing) = Opening::begin(None);
    assert!(matches!(
        failing.next(Err(error())),
        OpeningStep::Failed(e) if e == "打开会话失败: said"
    ));
}

#[test]
fn sessions_are_taken_up_or_replaced() {
    let snapshot = |id: &str| Snapshot {
        session_id: id.to_string(),
        rows: 24,
        cols: 80,
        remote_host_id: None,
    };
    let gone = || CallError {
        text: String::new(),
        message: "会话不存在".to_string(),
        category: None,
    };
    let mut step = Restoring::begin(vec![snapshot("a"), snapshot("b")]);
    let replies = vec![
        Ok(Json::Null),
        Ok(Json::Null),
        Err(gone()),
        Ok(value(r#"{"session_id": "c"}"#)),
        Ok(Json::Null),
        Ok(Json::Null),
    ];
    let mut kinds = Vec::new();
    for reply in replies {
        step = match step {
            RestoringStep::Send(request, restoring) => {
                kinds.push(request.kind);
                restoring.next(reply)
            }
            other => panic!("{other:?}"),
        };
    }
    assert_eq!(
        kinds,
        [
            "SubscribeSession",
            "ResizeSession",
            "SubscribeSession",
            "OpenLocalSession",
            "SubscribeSession",
            "ResizeSession",
        ]
    );
    match step {
        RestoringStep::Finished(mappings) => {
            assert_eq!(mappings.len(), 2);
            assert!(!mappings[0].replaced && mappings[0].new_session_id == "a");
            assert!(mappings[1].replaced && mappings[1].new_session_id == "c");
        }
        other => panic!("{other:?}"),
    }
}

#[test]
fn tabs_keep_their_ids_through_a_reconnect() {
    let mut app = app_with_two_terminal_tabs();
    let ids: Vec<String> = app.tabs.iter().map(|tab| tab.id.clone()).collect();
    let _ = send(
        &mut app,
        AppMessage::TerminalDisconnected { session_id: "session-a".to_string(), now: 0 },
    );
    assert_eq!(app.tabs.iter().map(|tab| tab.id.clone()).collect::<Vec<_>>(), ids);
    let _ = send(
        &mut app,
        AppMessage::TerminalReconnected {
            mappings: vec![Mapping {
                old_session_id: "session-a".to_string(),
                new_session_id: "session-z".to_string(),
                replaced: true,
            }],
        },
    );
    assert_eq!(app.tabs.iter().map(|tab| tab.id.clone()).collect::<Vec<_>>(), ids);
    assert!(matches!(
        &app.tabs[0].kind,
        TabKind::Terminal { session_id, .. } if session_id == "session-z"
    ));
}

#[test]
fn host_tabs_show_the_names_of_the_hosts() {
    let mut app = connected_app();
    let _ = send(&mut app, AppMessage::HostsLoaded(vec![host("a", "one"), host("b", "two")]));
    let _ = send(&mut app, AppMessage::OpenSettingsTab);
    let _ = send(
        &mut app,
        AppMessage::SyncCompleted(value(
            r#"{"status": "downloaded", "hosts": [{"id": "b", "name": "renamed", "host": "h",
                "user": "u", "port": 22, "tags": [], "auth_kind": "key"}]}"#,
        )),
    );
    let names: Vec<&Text> = app
        .tabs
        .iter()
        .filter(|tab| matches!(tab.kind, TabKind::Host { .. }))
        .map(|tab| &tab.name)
        .collect();
    assert_eq!(names, vec![&Text::plain("renamed".to_string())]);
    assert_eq!(app.tabs.len(), 2);
}

#[test]
fn an_emptied_password_is_noted() {
    let mut app = connected_app();
    let _ = send(&mut app, AppMessage::HostsLoaded(vec![host("a", "one")]));
    let _ = send(&mut app, AppMessage::EditHost("a".to_string()));
    let cleared = |app: &VidaApp| app.editor_state.as_ref().expect("open").password_cleared;
    let _ = send(&mut app, AppMessage::EditorPasswordChanged("x".to_string()));
    assert!(!cleared(&app));
    let _ = send(&mut app, AppMessage::EditorPasswordChanged(String::new()));
    assert!(cleared(&app));
    let _ = send(&mut app, AppMessage::EditorPasswordChanged("y".to_string()));
    assert!(!cleared(&app));
    let _ = send(&mut app, AppMessage::OpenAddHostTab);
    let _ = send(&mut app, AppMessage::EditorPasswordChanged("x".to_string()));
    let _ = send(&mut app, AppMessage::EditorPasswordChanged(String::new()));
    assert!(!cleared(&app));
}
