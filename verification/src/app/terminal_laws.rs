//! What the messages for terminals are for.
use vstd::prelude::*;

use crate::app::{AppModel, SlotModel};
use crate::app::message::{AppMessage, CommandModel, Field, PushMsg, Timer};
use crate::app::settings_laws;
use crate::json::JsonModel;
use crate::model;
use crate::screens::TabKindModel;
use crate::screens::s3_main::HostModel;
use crate::screens::s_terminal::SessionModel;
use crate::strings;
use crate::term::frame;
use crate::text;

verus! {

/// The terminal at a place of the list is the one of the active tab.
pub open spec fn is_active_terminal(app: AppModel, i: int) -> bool {
    &&& 0 <= i < app.terminal_sessions.len()
    &&& app.terminal_sessions[i].tab_id == app.active_tab_id
    &&& forall|j: int|
        0 <= j < i ==> (#[trigger] app.terminal_sessions[j]).tab_id != app.active_tab_id
}

proof fn lemma_active_terminal(app: AppModel, i: int)
    requires
        is_active_terminal(app, i),
    ensures
        app.active_slot() == Some(i),
{
    let p = |s: SlotModel| s.tab_id == app.active_tab_id;
    assert(model::first_at(app.terminal_sessions, p, i));
    model::lemma_first_index_some(app.terminal_sessions, p, i);
}

/// What is typed or pasted goes, byte for byte, to the session of the active
/// tab and to no other; one that has ended gets nothing and says so.
pub proof fn law_input_goes_to_the_active_terminal(app: AppModel, i: int, data: Vec<u8>)
    requires
        is_active_terminal(app, i),
        app.connected,
        data@.len() > 0,
    ensures
        ({
            let s = app.terminal_sessions[i].session;
            let (typed, asked) = app.on_terminal(AppMessage::TerminalInput(data));
            let (pasted, sent) = app.on_terminal(AppMessage::TerminalPaste(data));
            &&& !s.closed ==> {
                &&& asked.len() == 1
                &&& asked[0] matches CommandModel::Queue {
                    kind,
                    body: JsonModel::Object(members),
                    notice_tab,
                } && kind == "SessionInput"@ && members.len() == 2 && members[0].0 == "data"@
                    && settings_laws::is_byte_list(members[0].1, data@) && members[1] == (
                    "session_id"@,
                    JsonModel::Str(s.session_id),
                ) && notice_tab == Some(app.active_tab_id)
                &&& sent.len() == 1
                &&& sent[0] matches CommandModel::Queue {
                    kind,
                    body: JsonModel::Object(members),
                    notice_tab,
                } && kind == "PasteSession"@ && members.len() == 2 && members[0].0 == "data"@
                    && settings_laws::is_byte_list(members[0].1, data@) && members[1] == (
                    "session_id"@,
                    JsonModel::Str(s.session_id),
                ) && notice_tab == Some(app.active_tab_id)
            }
            &&& s.closed ==> {
                &&& asked.len() == 0
                &&& sent.len() == 0
                &&& typed.terminal_sessions[i].session.notice is Some
                &&& pasted.terminal_sessions[i].session.notice is Some
            }
            &&& typed.terminal_sessions[i].session.grid == s.grid
        }),
{
    lemma_active_terminal(app, i);
}

/// Another size reaches the session of the active tab and its grid, unless it
/// is the size that the grid has; scrolling reaches that session too.
pub proof fn law_size_and_scroll_reach_the_active_terminal(
    app: AppModel,
    i: int,
    cols: u16,
    rows: u16,
    lines: i32,
)
    requires
        is_active_terminal(app, i),
        app.connected,
        !app.terminal_sessions[i].session.closed,
        lines != 0,
    ensures
        ({
            let s = app.terminal_sessions[i].session;
            let (after, asked) = app.on_terminal(AppMessage::TerminalResize { cols, rows });
            let scrolled = app.on_terminal(AppMessage::TerminalScroll(lines)).1;
            &&& s.grid.cols == cols && s.grid.rows == rows ==> after == app && asked.len() == 0
            &&& s.grid.cols != cols || s.grid.rows != rows ==> {
                &&& after.terminal_sessions[i].session.grid.cols == cols
                &&& after.terminal_sessions[i].session.grid.rows == rows
                &&& asked.len() == 1
                &&& asked[0] matches CommandModel::Queue { kind, body, .. } && kind
                    == "ResizeSession"@ && body == JsonModel::Object(
                    seq![
                        ("cols"@, JsonModel::Unsigned(cols as nat)),
                        ("rows"@, JsonModel::Unsigned(rows as nat)),
                        ("session_id"@, JsonModel::Str(s.session_id)),
                    ],
                )
            }
            &&& scrolled.len() == 1
            &&& scrolled[0] matches CommandModel::Queue { kind, body, .. } && kind
                == "ScrollSession"@ && body == JsonModel::Object(
                seq![
                    (
                        "lines"@,
                        if lines < 0 {
                            JsonModel::Negative(lines as int)
                        } else {
                            JsonModel::Unsigned(lines as nat)
                        },
                    ),
                    ("session_id"@, JsonModel::Str(s.session_id)),
                ],
            )
        }),
{
    lemma_active_terminal(app, i);
}

/// A frame changes the grid of the terminal with its session, and no other
/// terminal; one that cannot be decoded changes nothing.
pub proof fn law_frame_reaches_its_terminal(
    app: AppModel,
    session_id: String,
    bytes: Vec<u8>,
    i: int,
    other: int,
)
    requires
        0 <= i < app.terminal_sessions.len(),
        app.terminal_sessions[i].session.session_id == session_id@,
        forall|j: int|
            0 <= j < i ==> (#[trigger] app.terminal_sessions[j]).session.session_id != session_id@,
        0 <= other < app.terminal_sessions.len(),
    ensures
        ({
            let (after, asked) = app.on_terminal(
                AppMessage::TerminalPush(PushMsg::Frame { session_id, bytes }),
            );
            let before = app.terminal_sessions[i].session;
            &&& asked.len() == 0
            &&& frame::decoded(bytes@) is None ==> after == app
            &&& frame::decoded(bytes@) matches Some(f) ==> {
                let s = after.terminal_sessions[i].session;
                &&& s.cursor_on
                &&& s.session_id == before.session_id
                &&& s.closed == before.closed
                &&& before.grid.last_seq is Some ==> s.grid == before.grid.with_frame(f)
                &&& before.grid.last_seq is None ==> s.grid == before.grid.after_reset(
                    before.grid.rows,
                    before.grid.cols,
                ).with_frame(f)
            }
            &&& other != i ==> after.terminal_sessions[other] == app.terminal_sessions[other]
            &&& after.tabs == app.tabs
        }),
{
    let p = |s: SlotModel| s.session.session_id == session_id@;
    assert(model::first_at(app.terminal_sessions, p, i));
    model::lemma_first_index_some(app.terminal_sessions, p, i);
}

/// A session that ends ends in the terminal that has it, with its exit code; a
/// connection to a host that failed is explained, a shell that ended well is
/// not.
pub proof fn law_ended_session(
    app: AppModel,
    session_id: String,
    code: Option<u32>,
    i: int,
    other: int,
)
    requires
        0 <= i < app.terminal_sessions.len(),
        app.terminal_sessions[i].session.session_id == session_id@,
        forall|j: int|
            0 <= j < i ==> (#[trigger] app.terminal_sessions[j]).session.session_id != session_id@,
        0 <= other < app.terminal_sessions.len(),
    ensures
        ({
            let after = app.on_terminal(
                AppMessage::TerminalPush(PushMsg::SessionClosed { session_id, exit_code: code }),
            ).0;
            let before = app.terminal_sessions[i].session;
            let s = after.terminal_sessions[i].session;
            &&& s.closed
            &&& s.exit_code == code
            &&& s.grid == before.grid
            &&& before.remote_host_id is Some && code is Some && code->0 != 0 ==> s.notice is Some
            &&& before.remote_host_id is None || code is None || code == Some(0u32) ==> s.notice
                == before.notice
            &&& other != i ==> after.terminal_sessions[other] == app.terminal_sessions[other]
            &&& after.tabs == app.tabs
        }),
{
    let p = |s: SlotModel| s.session.session_id == session_id@;
    assert(model::first_at(app.terminal_sessions, p, i));
    model::lemma_first_index_some(app.terminal_sessions, p, i);
}

/// A terminal opens on the host that was asked for, under its name, or on this
/// machine, and one at a time.
pub proof fn law_terminal_opens_where_asked(app: AppModel, id: String, i: int)
    requires
        app.screen is Main,
        app.connected,
        0 <= i < app.hosts.len(),
        app.hosts[i].id == id@,
        forall|j: int| 0 <= j < i ==> (#[trigger] app.hosts[j]).id != id@,
    ensures
        ({
            let (local, first) = app.on_terminal(AppMessage::OpenLocalTerminal);
            let (ssh, second) = app.on_terminal(AppMessage::OpenSshTerminal(id));
            &&& !app.terminal_opening ==> {
                &&& first.len() == 1
                &&& first[0] matches CommandModel::OpenTerminal { host_id, .. } && host_id is None
                &&& second == seq![
                    CommandModel::OpenTerminal { host_id: Some(id@), title: app.hosts[i].name },
                ]
                &&& local.terminal_opening
                &&& ssh.terminal_opening
                &&& local.on_terminal(AppMessage::OpenSshTerminal(id)).1.len() == 0
            }
            &&& app.terminal_opening ==> first.len() == 0 && second.len() == 0
        }),
        ({
            let after = app.on_terminal(AppMessage::QuickConnectHost(id));
            &&& after.1 == app.on_terminal(AppMessage::OpenSshTerminal(id)).1
            &&& after.0.recent_host_ids.len() > 0 && after.0.recent_host_ids[0] == id@
            &&& !after.0.show_connect_panel
        }),
{
    let p = |h: HostModel| h.id == id@;
    assert(model::first_at(app.hosts, p, i));
    model::lemma_first_index_some(app.hosts, p, i);
}

/// A session that was opened gets a tab of its own at the end, which becomes
/// active, and a terminal with a blank grid; away from the main screen it is
/// closed again.
pub proof fn law_opened_terminal_gets_a_tab(
    app: AppModel,
    session_id: String,
    title: String,
    host_id: Option<String>,
)
    requires
        forall|j: int|
            0 <= j < app.terminal_sessions.len() ==> (#[trigger] app.terminal_sessions[j]).tab_id
                != "terminal:"@ + session_id@,
    ensures
        ({
            let (after, asked) = app.on_terminal(
                AppMessage::TerminalOpened { session_id, title, host_id },
            );
            &&& !after.terminal_opening
            &&& app.screen is Main ==> {
                let slot = after.terminal_sessions.last();
                &&& after.tabs.len() == app.tabs.len() + 1
                &&& after.tabs.drop_last() == app.tabs
                &&& after.tabs.last().id == "terminal:"@ + session_id@
                &&& after.tabs.last().kind == (TabKindModel::Terminal {
                    session_id: session_id@,
                    number: app.next_terminal_number,
                })
                &&& host_id is Some ==> after.tabs.last().name == text::plain(title@)
                &&& after.active_tab_id == after.tabs.last().id
                &&& after.terminal_sessions.len() == app.terminal_sessions.len() + 1
                &&& after.terminal_sessions.drop_last() == app.terminal_sessions
                &&& slot.tab_id == after.tabs.last().id
                &&& slot.session.session_id == session_id@
                &&& slot.session.remote_host_id == strings::opt_text(host_id)
                &&& !slot.session.closed
                &&& slot.session.appearance == app.terminal_appearance
                &&& slot.session.grid.last_seq is None
                &&& asked == seq![CommandModel::Focus(Field::Terminal)]
                &&& !after.show_connect_panel
            }
            &&& !(app.screen is Main) ==> {
                &&& after.tabs == app.tabs
                &&& after.terminal_sessions == app.terminal_sessions
                &&& app.connected ==> asked == seq![
                    CommandModel::Unsubscribe(session_id@),
                    CommandModel::Queue {
                        kind: "CloseSession"@,
                        body: JsonModel::Object(
                            seq![("session_id"@, JsonModel::Str(session_id@))],
                        ),
                        notice_tab: None,
                    },
                ]
            }
        }),
{
    let id = "terminal:"@ + session_id@;
    let p = |s: SlotModel| s.tab_id == id;
    assert forall|j: int| 0 <= j < app.terminal_sessions.len() implies !p(
        #[trigger] app.terminal_sessions[j],
    ) by {}
    model::lemma_first_index_none(app.terminal_sessions, p);
    let (after, asked) = app.on_terminal(AppMessage::TerminalOpened { session_id, title, host_id });
    if app.screen is Main {
        assert(after.tabs.drop_last() =~= app.tabs);
        assert(after.terminal_sessions.drop_last() =~= app.terminal_sessions);
    }
}

/// Closing the tab of a terminal closes its session, and only that one.
pub proof fn law_closing_a_tab_closes_its_session(app: AppModel, id: String, i: int)
    requires
        0 <= i < app.terminal_sessions.len(),
        app.terminal_sessions[i].tab_id == id@,
        forall|j: int| 0 <= j < i ==> (#[trigger] app.terminal_sessions[j]).tab_id != id@,
        app.connected,
    ensures
        ({
            let (after, asked) = app.on_tab(AppMessage::CloseTab(id));
            let session = app.terminal_sessions[i].session.session_id;
            &&& after.terminal_sessions == app.terminal_sessions.remove(i)
            &&& asked == seq![
                CommandModel::Unsubscribe(session),
                CommandModel::Queue {
                    kind: "CloseSession"@,
                    body: JsonModel::Object(seq![("session_id"@, JsonModel::Str(session))]),
                    notice_tab: None,
                },
            ]
            &&& app.active_tab_id != id@ ==> after.active_tab_id == app.active_tab_id
        }),
{
    let p = |s: SlotModel| s.tab_id == id@;
    assert(model::first_at(app.terminal_sessions, p, i));
    model::lemma_first_index_some(app.terminal_sessions, p, i);
}

/// The cursor of the active terminal blinks where it is to; it is on in one
/// that must not blink, is hidden or has ended.
pub proof fn law_cursor_blinks(app: AppModel, i: int)
    requires
        is_active_terminal(app, i),
    ensures
        ({
            let s = app.terminal_sessions[i].session;
            let on = app.on_terminal(
                AppMessage::TerminalCursorBlink,
            ).0.terminal_sessions[i].session.cursor_on;
            &&& s.appearance.cursor_blink && s.grid.cursor_visible && !s.closed ==> on
                == !s.cursor_on
            &&& !s.appearance.cursor_blink || !s.grid.cursor_visible || s.closed ==> on
        }),
{
    lemma_active_terminal(app, i);
}

/// Where the connection to a running terminal is cut, every terminal has ended
/// for now and a connection is tried after five seconds; what was shown stays.
pub proof fn law_cut_connection_is_tried_again(
    app: AppModel,
    session_id: String,
    now: u64,
    i: int,
    k: int,
)
    requires
        0 <= i < app.terminal_sessions.len(),
        app.terminal_sessions[i].session.session_id == session_id@,
        !app.terminal_sessions[i].session.closed,
        0 <= k < app.terminal_sessions.len(),
        now <= u64::MAX - 10_000,
    ensures
        ({
            let (after, asked) = app.on_terminal(AppMessage::TerminalDisconnected { session_id, now });
            let cooling = app.terminal_reconnect_cooldown matches Some(until) && now < until;
            let s = after.terminal_sessions[k].session;
            let before = app.terminal_sessions[k].session;
            &&& after.terminal_sessions.len() == app.terminal_sessions.len()
            &&& s.closed
            &&& s.grid == before.grid
            &&& s.session_id == before.session_id
            &&& !before.closed ==> s.notice is Some
            &&& before.closed ==> s == before
            &&& after.terminal_restore_pending
            &&& cooling ==> asked.len() == 0
            &&& !cooling ==> asked == seq![
                CommandModel::Connect { delay_seconds: 5, restoring: true },
            ]
            &&& !cooling ==> after.terminal_reconnect_cooldown == Some((now + 10_000) as u64)
        }),
{
    let p = |s: SlotModel| s.session.session_id == session_id@ && !s.session.closed;
    assert(p(app.terminal_sessions[i]));
}

/// A failed try to take the terminals up again tells why and is made again
/// after two seconds; a request that could not be queued is told in its tab.
pub proof fn law_failed_reconnect_is_tried_again(app: AppModel, e: String, tab: String, i: int)
    requires
        0 <= i < app.terminal_sessions.len(),
        app.terminal_sessions[i].tab_id == tab@,
        forall|j: int| 0 <= j < i ==> (#[trigger] app.terminal_sessions[j]).tab_id != tab@,
    ensures
        ({
            let (after, asked) = app.on_terminal(AppMessage::TerminalReconnectFailed(e));
            &&& asked == seq![CommandModel::After { seconds: 2, timer: Timer::ReconnectRetry }]
            &&& after.terminal_sessions == app.terminal_sessions
            &&& after.screen is ConnectionFailure
            &&& !after.terminal_opening
            &&& after.on_terminal(AppMessage::TerminalReconnectRetry).1 == seq![
                CommandModel::Connect {
                    delay_seconds: 0,
                    restoring: app.terminal_restore_pending,
                },
            ]
        }),
        app.on_terminal(
            AppMessage::TerminalQueueFailed { tab_id: tab, message: e },
        ).0.terminal_sessions[i].session == (SessionModel {
            notice: Some(text::plain(e@)),
            ..app.terminal_sessions[i].session
        }),
        ({
            let after = app.on_terminal(AppMessage::TerminalSetupError(e)).0;
            &&& !after.terminal_opening
            &&& after.terminal_error is Some
            &&& after.tabs == app.tabs
        }),
{
    let p = |s: SlotModel| s.tab_id == tab@;
    assert(model::first_at(app.terminal_sessions, p, i));
    model::lemma_first_index_some(app.terminal_sessions, p, i);
}

} // verus!
