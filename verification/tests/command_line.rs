//! The command line client.
use vida::cli::{
    ask, conclude, error_envelope, print_error, print_success, select_host, success_envelope,
    Answer, Ask, CliError, Command, CursorPos, HostSummary, Output, ScreenData, SessionInfo,
    VaultStatus, EXIT_AMBIGUOUS, EXIT_CONNECTION, EXIT_DAEMON, EXIT_DATA, EXIT_NOT_FOUND,
};
use vida::json;
use vida::text::{Arg, I18n, Lang, Span, Text};

fn zh() -> I18n {
    I18n::new(Lang::ZhCn)
}

fn host(id: &str, name: &str) -> HostSummary {
    HostSummary {
        id: id.to_string(),
        name: name.to_string(),
        host: "example.test".to_string(),
        user: "root".to_string(),
        port: 22,
        tags: vec![],
        group: None,
        color: None,
        auth_kind: "password".to_string(),
        notes: None,
    }
}

fn status() -> VaultStatus {
    VaultStatus {
        locked: false,
        host_count: 2,
        revision: 9,
        device_id: "device-1".to_string(),
        vault_exists: true,
    }
}

fn plain(s: &str) -> Span {
    Span::Plain(s.to_string())
}

fn translated(lang: Lang, key: &str, args: Vec<Arg>) -> Span {
    Span::Translated { lang, key: key.to_string(), args }
}

#[test]
fn host_selector_prefers_exact_id() {
    let selected = select_host(
        &vec![host("id-1", "same"), host("same", "other")],
        "same",
        &zh(),
    )
    .expect("exact id");
    assert_eq!(selected.id, "same");
}

#[test]
fn duplicate_host_name_is_not_silently_selected() {
    let error = select_host(
        &vec![host("id-1", "same"), host("id-2", "same")],
        "same",
        &zh(),
    )
    .expect_err("ambiguous name");
    assert_eq!(error.code, EXIT_AMBIGUOUS);
    assert_eq!(error.kind, "host_ambiguous");
}

#[test]
fn missing_host_has_stable_error_code() {
    let error = select_host(&vec![], "missing", &zh()).expect_err("missing host");
    assert_eq!(error.code, EXIT_NOT_FOUND);
    assert_eq!(error.kind, "host_not_found");
}

#[test]
fn a_unique_name_selects_its_host() {
    let selected = select_host(&vec![host("id-1", "one"), host("id-2", "two")], "two", &zh())
        .expect("unique name");
    assert_eq!(selected.id, "id-2");
}

#[test]
fn json_envelopes_keep_stable_success_and_error_shape() {
    let success = success_envelope(&Output::Sessions(vec![]));
    assert_eq!(Some(success), json::parse(r#"{"ok": true, "data": []}"#));

    let error = CliError::local(
        EXIT_NOT_FOUND,
        "host_not_found",
        Text::plain("missing".to_string()),
    );
    assert_eq!(
        Some(error_envelope(&error, "missing")),
        json::parse(
            r#"{"ok": false, "error": {"kind": "host_not_found", "message": "missing", "category": null, "exit_code": 12}}"#
        )
    );
}

#[test]
fn human_output_follows_selected_language() {
    let english = Output::Status(status()).human_text(&I18n::new(Lang::En));
    assert_eq!(
        english.spans[0],
        translated(Lang::En, "cli_status_vault_exists", vec![Arg::Key("cli_yes".to_string())])
    );
    assert_eq!(
        english.spans[2],
        translated(
            Lang::En,
            "cli_status_lock_state",
            vec![Arg::Key("cli_vault_unlocked".to_string())]
        )
    );
    assert!(english.spans.iter().all(|span| match span {
        Span::Translated { lang, .. } => *lang == Lang::En,
        _ => true,
    }));
}

#[test]
fn screen_human_output_is_not_translated() {
    let output = Output::Screen(ScreenData {
        lines: vec!["remote 中文 output".to_string()],
        wide_cols: vec![],
        cursor: CursorPos { row: 0, col: 0 },
    });
    assert_eq!(
        output.human_text(&I18n::new(Lang::En)).spans,
        vec![plain("remote 中文 output")]
    );
}

#[test]
fn lists_have_a_line_for_each_entry() {
    let i18n = I18n::new(Lang::En);
    let hosts = Output::Hosts(vec![host("id-1", "one")]).human_text(&i18n);
    assert_eq!(
        hosts.spans,
        vec![
            plain("id-1\troot@example.test:22\t"),
            translated(Lang::En, "editor_auth_password", vec![]),
            plain("\tone"),
            plain("\n"),
        ]
    );
    let sessions = Output::Sessions(vec![SessionInfo {
        session_id: "s".to_string(),
        cols: 80,
        rows: 24,
        alive: true,
        exit_code: None,
        foreground_process: None,
    }])
    .human_text(&i18n);
    assert_eq!(
        sessions.spans,
        vec![
            plain("s\t80×24\t"),
            translated(Lang::En, "cli_session_alive", vec![]),
            plain("\t—"),
            plain("\n"),
        ]
    );
    assert_eq!(
        Output::Hosts(vec![]).human_text(&i18n).spans[0],
        translated(Lang::En, "cli_hosts_empty", vec![])
    );
    assert_eq!(
        Output::Sessions(vec![]).human_text(&i18n).spans[0],
        translated(Lang::En, "cli_sessions_empty", vec![])
    );
}

#[test]
fn a_host_is_shown_with_its_details() {
    let mut shown = host("id-1", "one");
    shown.tags = vec!["a".to_string(), "b".to_string()];
    shown.auth_kind = "agent".to_string();
    let text = Output::Host(shown).human_text(&zh());
    assert_eq!(
        text.spans[6],
        translated(Lang::ZhCn, "cli_host_auth", vec![Arg::Plain("agent".to_string())])
    );
    assert_eq!(
        text.spans[8],
        translated(Lang::ZhCn, "cli_host_group", vec![Arg::Plain("—".to_string())])
    );
    assert_eq!(
        text.spans[10],
        translated(Lang::ZhCn, "cli_host_tags", vec![Arg::Plain("a, b".to_string())])
    );
    assert_eq!(text.spans.len(), 14);
}

#[test]
fn the_doctor_tells_the_state_of_the_vault() {
    let missing = VaultStatus { vault_exists: false, ..status() };
    let output = conclude(
        &Command::Doctor,
        Answer::Status(missing),
        Some("/config".to_string()),
        &zh(),
    )
    .expect("configuration directory");
    let text = output.human_text(&zh());
    assert_eq!(
        text.spans[4],
        translated(
            Lang::ZhCn,
            "cli_doctor_vault",
            vec![Arg::Key("cli_vault_missing".to_string()), Arg::Plain("2".to_string())]
        )
    );
    let failed = conclude(&Command::Doctor, Answer::Status(status()), None, &zh())
        .expect_err("no configuration directory");
    assert_eq!(failed.code, EXIT_CONNECTION);
    assert_eq!(failed.kind, "connection_error");
}

#[test]
fn commands_ask_for_what_they_show() {
    assert_eq!(ask(&Command::Doctor), Ask::VaultStatus);
    assert_eq!(ask(&Command::HostShow { host: "x".to_string() }), Ask::Hosts);
    assert_eq!(
        ask(&Command::SessionScreen { session_id: "s".to_string() }),
        Ask::Screen("s".to_string())
    );
    let shown = conclude(
        &Command::HostShow { host: "two".to_string() },
        Answer::Hosts(vec![host("id-1", "one"), host("id-2", "two")]),
        None,
        &zh(),
    );
    assert!(matches!(shown, Ok(Output::Host(h)) if h.id == "id-2"));
}

#[test]
fn errors_have_stable_codes() {
    let daemon = CliError::daemon("locked".to_string(), Some("vault".to_string()));
    assert_eq!((daemon.code, daemon.kind.as_str()), (EXIT_DAEMON, "daemon_error"));
    let data = CliError::data("bad".to_string(), &zh());
    assert_eq!((data.code, data.kind.as_str()), (EXIT_DATA, "invalid_daemon_response"));
    assert_eq!(
        [EXIT_CONNECTION, EXIT_DAEMON, EXIT_NOT_FOUND, EXIT_AMBIGUOUS, EXIT_DATA],
        [10, 11, 12, 13, 14]
    );
}

#[test]
fn output_for_scripts_is_one_line() {
    let printed = print_success(true, &Output::Status(status()), &zh());
    assert_eq!(
        printed.spans,
        vec![
            plain(
                r#"{"data":{"device_id":"device-1","host_count":2,"locked":false,"revision":9,"vault_exists":true},"ok":true}"#
            ),
            plain("\n"),
        ]
    );
    let error = CliError::daemon("no".to_string(), Some("auth".to_string()));
    let failed = print_error(true, &error, "no", &zh());
    assert_eq!(
        failed.spans[0],
        plain(
            r#"{"error":{"category":"auth","exit_code":11,"kind":"daemon_error","message":"no"},"ok":false}"#
        )
    );
    let told = print_error(false, &error, "no", &zh());
    assert_eq!(
        told.spans[0],
        translated(Lang::ZhCn, "cli_error_prefix", vec![Arg::Plain("no".to_string())])
    );
}
