//! The screens: editor, settings, backup, conflicts and remote files.
use vida::json;
use vida::names::NameSet;
use vida::screens::s1_setup;
use vida::screens::s2_unlock::{self, RememberDuration};
use vida::screens::s3_main::{self, find_host, Glyph, HostItem};
use vida::screens::s4_credential::{self, auth_items, AuthKind};
use vida::screens::s5_settings::{
    installed_terminal_fonts, selected_terminal_font, selected_terminal_font_size,
    terminal_font_sizes, view_connections, FontFace, LangChoice, Loaded, QuickLocation,
    SettingsSection, State, SyncMode, VaultSettings,
};
use vida::screens::s6_conflict;
use vida::screens::s7_conflict_file::{self, ConflictFileInfo, Wording};
use vida::screens::s8_remote_missing::Action;
use vida::screens::s9_backup::{self, RestorePreview};
use vida::screens::s_sftp::{self, join_remote, parent_remote, Entry, SizeLabel};
use vida::screens::s_terminal::TerminalSession;
use vida::screens::Tab;
use vida::term::primitive::{FontSize, TerminalAppearance, UNITS_PER_POINT};
use vida::text::{Arg, I18n, Lang, Span, Text};

fn zh() -> I18n {
    I18n::new(Lang::ZhCn)
}

fn texts(list: &[&str]) -> Vec<String> {
    list.iter().map(|s| s.to_string()).collect()
}

fn host(id: &str, name: &str, group: Option<&str>) -> HostItem {
    HostItem {
        id: id.to_string(),
        name: name.to_string(),
        host: "example.test".to_string(),
        user: "root".to_string(),
        port: 22,
        tags: vec![],
        group: group.map(str::to_string),
        color: None,
        auth_kind: "password".to_string(),
        notes: None,
        agent_trust: "ask".to_string(),
    }
}

#[test]
fn a_vault_needs_two_equal_passphrases() {
    let mut state = s1_setup::State::new();
    assert!(!state.shown().can_create);
    state.passphrase = "12345678".to_string();
    state.confirm_passphrase = "12345678".to_string();
    assert!(!state.shown().can_create);
    state.risk_confirmed = true;
    assert!(state.shown().can_create);
    state.confirm_passphrase = "1234567x".to_string();
    assert!(state.shown().mismatch);
    assert!(!state.shown().can_create);
}

#[test]
fn the_passphrase_is_remembered_only_by_choice() {
    assert_eq!(s2_unlock::State::new().remember_duration, RememberDuration::Never);
    assert_eq!(RememberDuration::Never.seconds(), None);
    assert_eq!(RememberDuration::OneMinute.seconds(), Some(60));
    assert_eq!(RememberDuration::SevenDays.seconds(), Some(604_800));
    assert_eq!(RememberDuration::all().len(), 7);
}

#[test]
fn unlocking_needs_a_passphrase() {
    let mut state = s2_unlock::State::new();
    assert!(!state.shown(&zh()).can_unlock);
    state.passphrase = "x".to_string();
    assert!(state.shown(&zh()).can_unlock);
    state.unlocking = true;
    assert!(!state.shown(&zh()).can_unlock);
}

#[test]
fn hosts_are_found_by_id() {
    let hosts = vec![host("a", "one", None), host("b", "two", None)];
    assert_eq!(find_host(&hosts, "b").map(|h| h.name.as_str()), Some("two"));
    assert!(find_host(&hosts, "one").is_none());
}

#[test]
fn the_tab_bar_marks_the_active_tab() {
    let tabs = vec![
        Tab::host("a".to_string(), Text::plain("one".to_string())),
        Tab::terminal("s".to_string(), 1, Text::plain("terminal".to_string())),
    ];
    let bar = s3_main::State::view_tab_bar(&tabs, "terminal:s", false, 0, "✓");
    assert_eq!(bar.chips.len(), 2);
    assert!(!bar.chips[0].active && bar.chips[1].active);
    assert_eq!(bar.chips[1].glyph, Glyph::Terminal);
    assert_eq!(bar.approvals, None);
    let asked = s3_main::State::view_tab_bar(&tabs, "a", true, 3, "?");
    assert_eq!(asked.approvals, Some(3));
    assert!(asked.panel_active);
}

#[test]
fn tab_ids_differ_by_their_kind() {
    let name = || Text::empty();
    assert_eq!(Tab::terminal("x".to_string(), 1, name()).id, "terminal:x");
    assert_ne!(
        Tab::edit_host("x".to_string(), name()).id,
        Tab::host("x".to_string(), name()).id
    );
}

#[test]
fn the_panel_finds_hosts_whatever_the_case() {
    let hosts = vec![host("a", "Alpha", None), host("b", "Beta", None)];
    let panel = s3_main::State::view_connect_panel(&hosts, &texts(&["b", "gone"]), "ALP");
    assert_eq!(panel.hosts.len(), 1);
    assert_eq!(panel.hosts[0].id, "a");
    let all = s3_main::State::view_connect_panel(&hosts, &texts(&["b", "gone"]), "");
    assert_eq!(all.hosts.len(), 2);
    assert_eq!(all.recent.len(), 1);
    assert_eq!(all.recent[0].id, "b");
    assert_eq!(all.recent[0].address, "root@example.test");
}

#[test]
fn a_credential_is_shown_at_its_host_only() {
    let state = s3_main::State {
        revealed_credential: Some(("a".to_string(), "secret".to_string())),
        credential_copied: false,
    };
    let hosts = vec![host("a", "one", None), host("b", "two", None)];
    let own = state.view_host_detail(&hosts, "a", &zh()).expect("known host");
    assert_eq!(own.credential.as_deref(), Some("secret"));
    let other = state.view_host_detail(&hosts, "b", &zh()).expect("known host");
    assert_eq!(other.credential, None);
    assert!(state.view_host_detail(&hosts, "c", &zh()).is_none());
}

#[test]
fn a_new_host_is_saved_with_its_credential() {
    let mut state = s4_credential::State::new_add();
    state.name = "box".to_string();
    state.host = "example.test".to_string();
    state.tags = " a, ,b ".to_string();
    assert!(!state.shown().can_save);
    state.password = "pw".to_string();
    assert!(state.shown().can_save);
    assert_eq!(
        Some(state.save_request()),
        json::parse(
            r#"{"host": {"auth": {"kind": "password", "password": "pw"}, "color": null,
                "group": null, "host": "example.test", "id": null, "name": "box", "notes": null,
                "password": null, "port": 22, "tags": ["a", "b"], "user": "root"}}"#
        )
    );
    state.port = "70000".to_string();
    assert!(!state.shown().can_save);
}

#[test]
fn an_unchanged_edit_keeps_its_credential() {
    let state = s4_credential::State::new_edit(
        "h".to_string(),
        "box".to_string(),
        "example.test".to_string(),
        "me".to_string(),
        2222,
        texts(&["a", "b"]),
        Some("g".to_string()),
        None,
        "key_inline".to_string(),
        None,
    );
    assert_eq!(state.auth_kind, AuthKind::KeyInline);
    assert!(state.shown().can_save && state.shown().keeps_credential);
    let saved = state.save_request();
    let saved = saved.get("host").expect("host");
    assert_eq!(saved.index("auth"), json::Json::Null);
    assert_eq!(saved.u64_at("port"), Some(2222));
    assert_eq!(saved.str_at("id"), Some("h"));
    assert_eq!(auth_items(&zh()).len(), 3);
}

fn face(monospaced: bool, post_script_name: &str, families: &[&str]) -> FontFace {
    FontFace {
        monospaced,
        post_script_name: post_script_name.to_string(),
        families: texts(families),
    }
}

fn system_faces() -> Vec<FontFace> {
    let mut database = fontdb::Database::new();
    database.load_system_fonts();
    database
        .faces()
        .map(|face| FontFace {
            monospaced: face.monospaced,
            post_script_name: face.post_script_name.clone(),
            families: face.families.iter().map(|(name, _)| name.clone()).collect(),
        })
        .collect()
}

fn settings(family: &str, size: FontSize) -> VaultSettings {
    VaultSettings {
        s3_endpoint: Some("https://example.invalid".to_string()),
        s3_bucket: None,
        s3_access_key: None,
        s3_secret_key: None,
        sync_local_path: None,
        scrollback_lines: 4096,
        terminal_font_family: family.to_string(),
        terminal_font_size: size,
        terminal_cursor_blink: false,
    }
}

fn loaded(faces: Vec<FontFace>, family: &str) -> State {
    State::from_json(Loaded {
        settings: settings(family, FontSize::points(15)),
        language: None,
        faces,
    })
}

#[test]
fn settings_json_populates_terminal_appearance_and_preserves_full_settings() {
    for faces in [system_faces(), vec![face(true, "Menlo-Regular", &["Menlo"])]] {
        let installed = installed_terminal_fonts(&faces);
        let configured_font = installed
            .first()
            .cloned()
            .unwrap_or_else(|| "JetBrains Mono".to_string());
        let state = loaded(faces, &configured_font);

        let appearance = state.terminal_appearance();
        assert_eq!(appearance.font_family, configured_font);
        assert_eq!(appearance.font_size, FontSize::points(15));
        assert!(!appearance.cursor_blink);
        assert_eq!(
            state.vault_settings.s3_endpoint.as_deref(),
            Some("https://example.invalid")
        );
        assert!(
            state
                .terminal_font_families
                .contains(&state.terminal_font_family),
            "当前字体必须来自下拉选项"
        );
    }
}

#[test]
fn loaded_settings_are_saved_back() {
    let state = loaded(vec![face(true, "Menlo-Regular", &["Menlo"])], "Menlo");
    assert_eq!(state.settings_to_save(), settings("Menlo", FontSize::points(15)));
}

#[test]
fn terminal_font_selection_falls_back_to_bundled_default() {
    let installed = vec!["JetBrains Mono".to_string(), "Menlo".to_string()];
    assert_eq!(
        selected_terminal_font("not installed", &installed),
        "JetBrains Mono"
    );
    assert_eq!(
        selected_terminal_font("jetbrains mono", &installed),
        "JetBrains Mono"
    );
}

#[test]
fn terminal_font_list_excludes_unrenderable_bitmap_faces() {
    let mut faces = system_faces();
    faces.push(face(true, "TerminusBitmap", &["Terminus"]));
    faces.push(face(true, "X", &["X Bitmap"]));
    assert!(
        installed_terminal_fonts(&faces)
            .iter()
            .all(|name| !name.contains("Bitmap"))
    );
}

#[test]
fn fonts_are_sorted_whatever_their_case() {
    let faces = vec![
        face(true, "b", &["beta"]),
        face(true, "a", &["Alpha"]),
        face(false, "p", &["Proportional"]),
        face(true, "b2", &["Beta", "other"]),
    ];
    assert_eq!(installed_terminal_fonts(&faces), texts(&["Alpha", "beta"]));
    let bitmaps = vec![
        face(true, "X", &["X Bitmap"]),
        face(true, "YBitmap", &["Y"]),
        face(true, "JetBrainsMono-Regular", &["JetBrains Mono"]),
    ];
    assert_eq!(installed_terminal_fonts(&bitmaps), texts(&["JetBrains Mono"]));
}

#[test]
fn terminal_font_size_uses_nearest_available_choice() {
    assert_eq!(selected_terminal_font_size(FontSize::points(13)), 13);
    assert_eq!(selected_terminal_font_size(FontSize::points(17)), 16);
    assert_eq!(selected_terminal_font_size(FontSize::points(31)), 32);
    assert!(terminal_font_sizes().contains(&selected_terminal_font_size(FontSize::NotFinite)));
    assert_eq!(selected_terminal_font_size(FontSize::Units(13 * UNITS_PER_POINT + 1)), 13);
}

#[test]
fn language_codes_round_trip() {
    for choice in [LangChoice::System, LangChoice::ZhCn, LangChoice::En] {
        assert_eq!(LangChoice::from_code(choice.as_str()), choice);
    }
    assert_eq!(LangChoice::from_code("fr"), LangChoice::System);
}

#[test]
fn a_sync_path_needs_its_mode() {
    assert_eq!(SyncMode::from_path(""), SyncMode::Off);
    assert_eq!(SyncMode::from_path("/vault"), SyncMode::Local);
    let mut state = loaded(vec![], "Menlo");
    let page = state.view_sync(&zh());
    assert_eq!(page.selected.mode, SyncMode::Off);
    assert_eq!(page.path, None);
    state.sync_mode = SyncMode::Local;
    state.sync_local_path = "/vault".to_string();
    let page = state.view_sync(&zh());
    assert_eq!(page.path.as_deref(), Some("/vault"));
    assert!(page.quick.contains(&QuickLocation::Home));
    assert_eq!(state.settings_to_save().sync_local_path.as_deref(), Some("/vault"));
}

#[test]
fn the_sidebar_names_every_section() {
    let state = loaded(vec![], "Menlo");
    let items = state.view_sidebar(&zh());
    assert_eq!(items.len(), SettingsSection::all().len());
    assert_eq!(items.iter().filter(|item| item.active).count(), 1);
    assert_eq!(state.view_application(&zh()).selected, LangChoice::System);
    assert_eq!(state.view_terminal(&zh()).scrollback, "4096");
}

#[test]
fn an_unreadable_scrollback_is_not_saved() {
    let mut state = loaded(vec![], "Menlo");
    state.scrollback_lines = "200".to_string();
    assert_eq!(state.settings_to_save().scrollback_lines, 200);
    state.scrollback_lines = "many".to_string();
    assert_eq!(state.settings_to_save().scrollback_lines, 3000);
}

#[test]
fn connections_are_listed_by_group() {
    let shown = view_connections(&vec![
        host("a", "one", Some("work")),
        host("b", "two", None),
        host("c", "three", Some("home")),
        host("d", "four", Some("work")),
    ]);
    assert_eq!(shown.ungrouped.len(), 1);
    let groups: Vec<(&str, usize)> = shown
        .groups
        .iter()
        .map(|group| (group.name.as_str(), group.rows.len()))
        .collect();
    assert_eq!(groups, vec![("home", 1), ("work", 2)]);
}

#[test]
fn conflicting_hosts_are_parted() {
    let state = s6_conflict::State::new(texts(&["a", "b"]), texts(&["b", "c"]));
    assert_eq!(state.only_local, texts(&["a"]));
    assert_eq!(state.only_remote, texts(&["c"]));
    assert_eq!(state.both, texts(&["b"]));
}

#[test]
fn a_conflict_file_tells_the_hosts_it_holds() {
    let files = || {
        vec![ConflictFileInfo { path: "/v (conflict)".to_string(), pattern: Text::empty() }]
    };
    assert_eq!(s7_conflict_file::State::new(files(), vec![]).shown(), Wording::Short);
    assert_eq!(
        s7_conflict_file::State::new(files(), texts(&["a"])).shown(),
        Wording::WithHosts
    );
    assert_eq!(Action::Reupload.name(), "reupload");
    assert_eq!(Action::ClearState.name(), "clear_state");
}

#[test]
fn a_backup_is_restored_after_its_preview_only() {
    let mut state = s9_backup::State::new();
    state.restore_path = "/backup".to_string();
    assert!(!state.view_settings_content(&zh()).can_validate);
    state.restore_passphrase = "pw".to_string();
    assert!(state.view_settings_content(&zh()).can_validate);
    state.restore_data = vec![1];
    state.restore_preview = Some(RestorePreview {
        host_count: 2,
        modified_at: "then".to_string(),
        host_names: texts(&["a", "b"]),
    });
    let preview = state.view_settings_content(&zh()).preview.expect("validated");
    assert!(preview.can_confirm);
    assert_eq!(
        preview.summary.spans[0],
        Span::Translated {
            lang: Lang::ZhCn,
            key: "backup_restore_preview".to_string(),
            args: vec![Arg::Plain("2".to_string()), Arg::Plain("then".to_string())],
        }
    );
    state.forget_validation();
    assert!(state.view_settings_content(&zh()).preview.is_none());
    assert!(state.restore_data.is_empty());
}

#[test]
fn remote_paths_are_joined_safely() {
    assert_eq!(join_remote("/", "tmp"), "/tmp");
    assert_eq!(parent_remote("/tmp/log"), "/tmp");
    assert_eq!(parent_remote("/root"), "/");
}

#[test]
fn joining_is_undone_by_the_parent() {
    assert_eq!(join_remote("/var/", "log"), "/var/log");
    assert_eq!(parent_remote(&join_remote("/var", "log")), "/var");
    assert_eq!(parent_remote("/"), "/");
    assert_eq!(parent_remote("/tmp/"), "/tmp");
    assert_eq!(parent_remote("relative"), ".");
}

fn entry(name: &str) -> Entry {
    Entry {
        name: name.into(),
        is_dir: false,
        size: 0,
        permissions: "-rw-r--r--".into(),
        modified: "Aug 11 01:00".into(),
    }
}

fn name_set(names: &[&str]) -> NameSet {
    let mut set = NameSet::new();
    for name in names {
        set.insert(name.to_string());
    }
    set
}

#[test]
fn drag_selection_includes_the_whole_row_range() {
    let mut state = s_sftp::State::new("host".into(), "Host".into());
    state.entries = vec![entry("a"), entry("b"), entry("c"), entry("d")];
    state.selection_anchor = Some("b".into());
    state.selection_base.insert("a".into());
    state.select_range_to("d");
    assert_eq!(state.selected, name_set(&["a", "b", "c", "d"]));
}

#[test]
fn a_range_reaches_back_too() {
    let mut state = s_sftp::State::new("host".into(), "Host".into());
    state.entries = vec![entry("a"), entry("b"), entry("c"), entry("d")];
    state.selection_anchor = Some("c".into());
    state.select_range_to("b");
    assert_eq!(state.selected, name_set(&["b", "c"]));
}

const SECOND: u64 = 1_000_000_000;

#[test]
fn fresh_directory_cache_restores_entries_without_a_read() {
    let mut state = s_sftp::State::new("host".into(), "Host".into());
    state.remember_directory("/tmp".into(), vec![entry("cached")], 0);
    assert_eq!(state.restore_cached("/tmp", SECOND), Some(true));
    assert_eq!(state.path, "/tmp");
    assert_eq!(state.entries[0].name, "cached");
}

#[test]
fn an_old_directory_is_shown_and_read_again() {
    let mut state = s_sftp::State::new("host".into(), "Host".into());
    state.remember_directory("/tmp".into(), vec![entry("cached")], 0);
    assert_eq!(state.restore_cached("/tmp", 31 * SECOND), Some(false));
    assert_eq!(state.entries[0].name, "cached");
    assert_eq!(state.restore_cached("/var", SECOND), None);
}

#[test]
fn sixteen_directories_are_remembered() {
    let mut state = s_sftp::State::new("host".into(), "Host".into());
    for i in 0..17u64 {
        state.remember_directory(format!("/{i}"), vec![], i);
    }
    assert_eq!(state.cache.len(), 16);
    assert_eq!(state.restore_cached("/0", 20), None);
    assert_eq!(state.restore_cached("/16", 20), Some(true));
}

#[test]
fn entries_are_filtered_and_opened() {
    let mut state = s_sftp::State::new("host".into(), "Host".into());
    state.path = "/srv".to_string();
    let mut folder = entry("Docs");
    folder.is_dir = true;
    state.entries = vec![folder, entry("notes.txt")];
    let listing = state.shown(&zh());
    assert_eq!(listing.rows.len(), 2);
    assert_eq!(listing.rows[0].target, "/srv/Docs");
    assert_eq!(listing.rows[0].size, SizeLabel::Dash);
    assert_eq!(listing.rows[1].size, SizeLabel::Bytes(0));
    assert!(listing.has_parent);
    state.filter = "DOC".to_string();
    let listing = state.shown(&zh());
    assert_eq!(listing.rows.len(), 1);
    assert_eq!(listing.rows[0].name, "Docs");
}

#[test]
fn a_session_tells_how_it_ended() {
    let mut session = TerminalSession::new(
        "s".to_string(),
        None,
        Text::empty(),
        24,
        80,
        TerminalAppearance::default(),
    );
    assert!(!session.shown().ended);
    session.closed = true;
    session.exit_code = Some(7);
    let status = session.shown();
    assert!(status.ended);
    assert!(status.text.contains('7'));
    assert_eq!(session.snapshot(), session.grid);
}
