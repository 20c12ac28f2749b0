//! The bridge for agents, and the approvals that it waits for.
use vida::json;
use vida::mcp::{
    begin, decode_exec_output, host_of_uri, host_prepared_next, next, notes_name, notes_title,
    notes_uri, prepared_host, screen_text, session_opened_next, string_list, unexpected_response,
    without_padding, Action, Event, RequestKind, Stage,
};
use vida::screens::agent_approval::{self, Approval};
use vida::screens::s3_main::HostItem;
use vida::text::{Arg, I18n, Lang, Span, Text};

#[test]
fn danger_matches_are_reduced_to_non_command_rule_ids() {
    let value = json::parse(
        r#"[{"rule_id": "recursive_delete", "reason": "recursive deletion"}, "legacy_rule"]"#,
    )
    .expect("valid text");
    assert_eq!(
        string_list(Some(&value), "rule_id"),
        ["recursive_delete", "legacy_rule"]
    );
}

#[test]
fn terminal_padding_is_not_part_of_agent_text() {
    let lines = without_padding(&vec![
        "prompt %   ".to_string(),
        "output".to_string(),
        "     ".to_string(),
    ]);
    assert_eq!(lines, ["prompt %", "output", ""]);
    assert_eq!(
        screen_text(&vec!["a  ".to_string(), "b".to_string()]),
        "a\nb"
    );
}

#[test]
fn approval_result_tells_agent_to_wait_without_echoing_command() {
    let value = json::parse(
        r#"{
            "status": "needs_approval",
            "approval_id": "approval-1",
            "command": "sensitive command text",
            "reasons": ["recursive or forced file deletion"],
            "matched_rules": [{"rule_id": "recursive_delete", "reason": "delete"}],
            "expires_at": 1234
        }"#,
    )
    .expect("valid text");
    let output = decode_exec_output("session-1".to_string(), &value);
    assert_eq!(output.status, "needs_approval");
    assert!(output.next_action.contains("Do not call exec again"));
    assert!(!format!("{output:?}").contains("sensitive command text"));
    assert_eq!(output.approval_id.as_deref(), Some("approval-1"));
    assert_eq!(output.expires_at, Some(1234));
    assert_eq!(output.reasons, ["recursive or forced file deletion"]);
    assert_eq!(output.matched_rules, ["recursive_delete"]);
}

#[test]
fn a_reply_without_a_status_counts_as_rejected() {
    let value = json::parse(r#"{"message": "no"}"#).expect("valid text");
    let output = decode_exec_output("s".to_string(), &value);
    assert_eq!(output.status, "rejected");
    assert_eq!(output.message.as_deref(), Some("no"));
    assert!(output.next_action.contains("was not sent"));
    assert!(output.reasons.is_empty());
}

#[test]
fn a_status_that_agents_do_not_know_counts_as_rejected() {
    for (given, told) in [
        ("sent", "sent"),
        ("needs_approval", "needs_approval"),
        ("rejected", "rejected"),
        ("queued", "rejected"),
        ("", "rejected"),
    ] {
        let text = format!(r#"{{"status": "{given}"}}"#);
        let value = json::parse(&text).expect("valid text");
        assert_eq!(decode_exec_output("s".to_string(), &value).status, told);
    }
}

#[test]
fn reads_are_sent_again_after_a_reconnect() {
    assert!(matches!(begin(false), Action::Connect(Stage::Connecting)));
    let stage = match begin(true) {
        Action::Send(stage) => stage,
        other => panic!("{other:?}"),
    };
    let stage = match next(RequestKind::Read, stage, Event::Refused("lost".to_string())) {
        Action::Reconnect(stage) => stage,
        other => panic!("{other:?}"),
    };
    let stage = match next(RequestKind::Read, stage, Event::Connected) {
        Action::Send(stage) => stage,
        other => panic!("{other:?}"),
    };
    match next(RequestKind::Read, stage, Event::Refused("locked".to_string())) {
        Action::Fail(e) => assert!(e.ends_with("Details: locked")),
        other => panic!("{other:?}"),
    }
}

#[test]
fn a_failed_reconnect_tells_both_errors() {
    let action = next(
        RequestKind::OpenSession,
        Stage::Reconnecting("first".to_string()),
        Event::ConnectFailed("second".to_string()),
    );
    match action {
        Action::Fail(e) => {
            assert!(e.contains("First error: first. Reconnect error: Unable to connect"));
            assert!(e.ends_with("Details: second"));
        }
        other => panic!("{other:?}"),
    }
}

#[test]
fn commands_are_never_sent_again() {
    for kind in [RequestKind::Exec, RequestKind::PrepareHost, RequestKind::UpdateNotes] {
        match next(kind, Stage::Sending, Event::Refused("lost".to_string())) {
            Action::DropAndFail(e) => {
                assert!(e.contains("so Vida did not retry it"));
                assert!(e.ends_with("Details: lost"));
            }
            other => panic!("{other:?}"),
        }
    }
    assert!(matches!(
        next(RequestKind::Exec, Stage::Connecting, Event::ConnectFailed("x".to_string())),
        Action::Fail(_)
    ));
    assert!(matches!(
        next(RequestKind::Exec, Stage::Sending, Event::Replied(json::Json::Null)),
        Action::Succeed(json::Json::Null)
    ));
}

#[test]
fn addresses_name_their_hosts() {
    assert_eq!(notes_uri("h1"), "vida://host/h1/notes");
    assert_eq!(host_of_uri(&notes_uri("h1")).as_deref(), Some("h1"));
    assert_eq!(host_of_uri("vida://host//notes"), None);
    assert_eq!(host_of_uri("vida://host/a/b/notes"), None);
    assert_eq!(host_of_uri("vida://host/a"), None);
    assert_eq!(host_of_uri("file:///a/notes"), None);
    assert_eq!(notes_name("box"), "box operations notes");
    assert_eq!(notes_title("box"), "box · Operations notes");
}

#[test]
fn agents_are_told_what_to_do_next() {
    assert!(host_prepared_next().ends_with("until the human saves it."));
    let prepared = prepared_host("draft-1".to_string());
    assert_eq!(prepared.draft_id, "draft-1");
    assert_eq!(prepared.status, "awaiting_human");
    assert_eq!(prepared.next_action, host_prepared_next());
    assert_eq!(
        session_opened_next("s1"),
        "Call session_list to confirm the target, then screen_read on session s1 before sending any command."
    );
    assert!(unexpected_response("status", "x").starts_with("Vida returned an unexpected status response."));
}

fn approval(id: &str, command: &str) -> Approval {
    Approval {
        approval_id: id.to_string(),
        session_id: "session".to_string(),
        host_id: Some("h1".to_string()),
        command: command.to_string(),
        matched_rules: vec![],
        reasons: vec![],
        expires_at: 100,
    }
}

fn host() -> HostItem {
    HostItem {
        id: "h1".to_string(),
        name: "box".to_string(),
        host: "example.test".to_string(),
        user: "root".to_string(),
        port: 22,
        tags: vec![],
        group: None,
        color: None,
        auth_kind: "password".to_string(),
        notes: None,
        agent_trust: "ask".to_string(),
    }
}

#[test]
fn the_first_approval_is_selected_by_itself() {
    let i18n = I18n::new(Lang::En);
    let list = vec![approval("a", "ls"), approval("b", "rm -rf /some/very/long/path/here")];
    let panel = agent_approval::view(&list, &None, &None, &None, &vec![host()], 90, &i18n);
    let detail = panel.detail.expect("something waits");
    assert_eq!(detail.approval_id, "a");
    assert_eq!(detail.target, Text::plain("box".to_string()));
    assert!(!detail.expired);
    assert!(detail.can_decide);
    assert_eq!(detail.countdown, i18n.trf1("agent_approval_expires_in", "10".to_string()));
    assert_eq!(panel.items[1].preview, "rm -rf /some/very/long/p…");
    assert!(panel.items[0].selected && !panel.items[1].selected);
    let other = agent_approval::view(
        &list,
        &Some("b".to_string()),
        &Some("b".to_string()),
        &None,
        &vec![],
        100,
        &i18n,
    );
    let detail = other.detail.expect("something waits");
    assert_eq!(detail.approval_id, "b");
    assert!(detail.expired && !detail.can_decide);
    assert_eq!(detail.approve, i18n.tr("agent_approval_processing"));
    assert_eq!(detail.target, i18n.tr("agent_approval_local_terminal"));
}

#[test]
fn nothing_to_approve_leaves_a_line() {
    let i18n = I18n::new(Lang::En);
    let panel = agent_approval::view(&vec![], &None, &None, &None, &vec![], 0, &i18n);
    assert!(panel.detail.is_none() && panel.items.is_empty());
    assert_eq!(panel.line, Some(i18n.tr("agent_approval_empty")));
}

#[test]
fn reasons_are_named() {
    let i18n = I18n::new(Lang::En);
    let mut matched = approval("a", "rm");
    matched.matched_rules = vec!["recursive_delete".to_string(), "own_rule".to_string()];
    matched.reasons = vec!["ignored".to_string()];
    let panel = agent_approval::view(&vec![matched], &None, &None, &None, &vec![], 0, &i18n);
    let reasons = panel.detail.expect("something waits").reasons;
    assert_eq!(
        reasons.spans,
        vec![
            Span::Translated {
                lang: Lang::En,
                key: "agent_rule_recursive_delete".to_string(),
                args: Vec::<Arg>::new(),
            },
            Span::Plain(" · ".to_string()),
            Span::Plain("own_rule".to_string()),
        ]
    );
    let mut given = approval("a", "rm");
    given.reasons = vec!["one".to_string(), "two".to_string()];
    let panel = agent_approval::view(&vec![given], &None, &None, &None, &vec![], 0, &i18n);
    assert_eq!(
        panel.detail.expect("something waits").reasons,
        Text::plain("one · two".to_string())
    );
}

#[test]
fn the_command_does_not_change_the_report() {
    let with = json::parse(r#"{"status": "sent", "command": "secret"}"#).expect("valid text");
    let without = json::parse(r#"{"status": "sent"}"#).expect("valid text");
    assert_eq!(
        format!("{:?}", decode_exec_output("s".to_string(), &with)),
        format!("{:?}", decode_exec_output("s".to_string(), &without))
    );
}
