//! Terminals in tabs.
use vstd::prelude::*;

use crate::app::hosts;
use crate::app::message;
use crate::app::message::{Command, CommandModel, Field, Mapping, MappingModel, Timer};
use crate::app::tabs;
use crate::app::{slot_models, AppModel, SlotModel, TabSession, VidaApp};
use crate::json;
use crate::json::{Json, JsonModel};
use crate::model;
use crate::screens;
use crate::screens::s0_connection;
use crate::screens::s3_main;
use crate::screens::s_terminal::{SessionModel, TerminalSession};
use crate::screens::{Screen, ScreenModel, Tab, TabKind, TabKindModel, TabModel};
use crate::strings;
use crate::term::client_grid::GridModel;
use crate::term::frame;
use crate::text;
use crate::text::{I18n, Lang, Text};

verus! {

// ---------------------------------------------------------------------------
// Why a session failed
// ---------------------------------------------------------------------------

/// The text with its ASCII capitals in lower case.
pub open spec fn ascii_lowered(s: Seq<char>) -> Seq<char> {
    Seq::new(s.len(), |i: int| strings::ascii_lower(s[i]))
}

/// The key of the text that explains why a connection failed, by what the
/// terminal shows.
pub open spec fn failure_key(output: Seq<char>) -> Seq<char> {
    let t = ascii_lowered(output);
    if strings::has_part(t, "permission denied"@) || strings::has_part(
        t,
        "authentication failed"@,
    ) || strings::has_part(t, "too many authentication failures"@) {
        "terminal_ssh_auth_failed"@
    } else if strings::has_part(t, "connection refused"@) {
        "terminal_ssh_connection_refused"@
    } else if strings::has_part(t, "operation timed out"@) || strings::has_part(
        t,
        "connection timed out"@,
    ) || strings::has_part(t, "no route to host"@) || strings::has_part(
        t,
        "network is unreachable"@,
    ) {
        "terminal_ssh_unreachable"@
    } else if strings::has_part(t, "could not resolve hostname"@) || strings::has_part(
        t,
        "name or service not known"@,
    ) {
        "terminal_ssh_dns_failed"@
    } else if strings::has_part(t, "host key verification failed"@) || strings::has_part(
        t,
        "remote host identification has changed"@,
    ) {
        "terminal_ssh_host_key_failed"@
    } else {
        "terminal_ssh_failed_generic"@
    }
}

fn to_ascii_lowered(s: &str) -> (res: String)
    ensures
        res@ == ascii_lowered(s@),
{
    let chars = strings::chars_of(s);
    let mut out = String::new();
    let mut i: usize = 0;
    while i < chars.len()
        invariant
            i <= chars@.len(),
            chars@ == s@,
            out@ =~= ascii_lowered(s@).take(i as int),
        decreases chars@.len() - i,
    {
        out.push(strings::to_ascii_lower(chars[i]));
        i += 1;
    }
    proof {
        assert(ascii_lowered(s@).take(i as int) =~= ascii_lowered(s@));
    }
    out
}

/// Why a connection failed, by what the terminal shows.
pub fn classify_ssh_failure(i18n: &I18n, output: &str) -> (res: Text)
    ensures
        res@ == text::tr(i18n.lang, failure_key(output@)),
{
    let lowered = to_ascii_lowered(output);
    let t = lowered.as_str();
    if strings::contains_text(t, "permission denied") || strings::contains_text(
        t,
        "authentication failed",
    ) || strings::contains_text(t, "too many authentication failures") {
        i18n.tr("terminal_ssh_auth_failed")
    } else if strings::contains_text(t, "connection refused") {
        i18n.tr("terminal_ssh_connection_refused")
    } else if strings::contains_text(t, "operation timed out") || strings::contains_text(
        t,
        "connection timed out",
    ) || strings::contains_text(t, "no route to host") || strings::contains_text(
        t,
        "network is unreachable",
    ) {
        i18n.tr("terminal_ssh_unreachable")
    } else if strings::contains_text(t, "could not resolve hostname") || strings::contains_text(
        t,
        "name or service not known",
    ) {
        i18n.tr("terminal_ssh_dns_failed")
    } else if strings::contains_text(t, "host key verification failed") || strings::contains_text(
        t,
        "remote host identification has changed",
    ) {
        i18n.tr("terminal_ssh_host_key_failed")
    } else {
        i18n.tr("terminal_ssh_failed_generic")
    }
}

// ---------------------------------------------------------------------------
// Requests
// ---------------------------------------------------------------------------

/// The request that hands bytes to a session.
pub open spec fn data_request(session_id: Seq<char>, data: Seq<u8>) -> JsonModel {
    JsonModel::Object(
        seq![
            ("data"@, hosts::byte_array(data)),
            ("session_id"@, JsonModel::Str(session_id)),
        ],
    )
}

/// The request that gives a session another size.
pub open spec fn resize_request(session_id: Seq<char>, cols: u16, rows: u16) -> JsonModel {
    JsonModel::Object(
        seq![
            ("cols"@, JsonModel::Unsigned(cols as nat)),
            ("rows"@, JsonModel::Unsigned(rows as nat)),
            ("session_id"@, JsonModel::Str(session_id)),
        ],
    )
}

/// A number with a sign.
pub open spec fn signed_number(n: int) -> JsonModel {
    if n < 0 {
        JsonModel::Negative(n)
    } else {
        JsonModel::Unsigned(n as nat)
    }
}

/// The request that scrolls a session through its history.
pub open spec fn scroll_request(session_id: Seq<char>, lines: i32) -> JsonModel {
    JsonModel::Object(
        seq![
            ("lines"@, signed_number(lines as int)),
            ("session_id"@, JsonModel::Str(session_id)),
        ],
    )
}

fn data_body(session_id: &str, data: &Vec<u8>) -> (res: Json)
    ensures
        res@ == data_request(session_id@, data@),
{
    let mut members: Vec<(String, Json)> = Vec::new();
    members.push(("data".to_string(), hosts::bytes_json(data)));
    members.push(("session_id".to_string(), Json::Str(session_id.to_string())));
    proof {
        json::lemma_object(members);
        assert(json::member_models(members@) =~= data_request(session_id@, data@)->Object_0);
    }
    Json::Object(members)
}

/// The request that gives a session another size.
pub fn resize_body(session_id: &str, cols: u16, rows: u16) -> (res: Json)
    ensures
        res@ == resize_request(session_id@, cols, rows),
{
    let mut members: Vec<(String, Json)> = Vec::new();
    members.push(("cols".to_string(), Json::Unsigned(cols as u64)));
    members.push(("rows".to_string(), Json::Unsigned(rows as u64)));
    members.push(("session_id".to_string(), Json::Str(session_id.to_string())));
    proof {
        json::lemma_object(members);
        assert(json::member_models(members@) =~= resize_request(
            session_id@,
            cols,
            rows,
        )->Object_0);
    }
    Json::Object(members)
}

fn scroll_body(session_id: &str, lines: i32) -> (res: Json)
    ensures
        res@ == scroll_request(session_id@, lines),
{
    let number = if lines < 0 {
        Json::Negative(lines as i64)
    } else {
        Json::Unsigned(lines as u64)
    };
    let mut members: Vec<(String, Json)> = Vec::new();
    members.push(("lines".to_string(), number));
    members.push(("session_id".to_string(), Json::Str(session_id.to_string())));
    proof {
        json::lemma_object(members);
        assert(json::member_models(members@) =~= scroll_request(session_id@, lines)->Object_0);
    }
    Json::Object(members)
}

// ---------------------------------------------------------------------------
// What happens to terminals
// ---------------------------------------------------------------------------

/// A session that a reconnect took up again, or that took the place of one.
pub open spec fn taken_up(s: SessionModel, m: MappingModel, lang: Lang) -> SessionModel {
    SessionModel {
        session_id: m.new_session_id,
        closed: false,
        exit_code: None,
        notice: if m.replaced {
            Some(text::tr(lang, "terminal_session_replaced"@))
        } else {
            None
        },
        grid: s.grid.after_reset(s.grid.rows, s.grid.cols),
        cursor_on: true,
        ..s
    }
}

/// The kind of a tab after a session got another id.
pub open spec fn kind_after(kind: TabKindModel, m: MappingModel) -> TabKindModel {
    match kind {
        TabKindModel::Terminal { session_id, number } => if session_id == m.old_session_id {
            TabKindModel::Terminal { session_id: m.new_session_id, number }
        } else {
            kind
        },
        _ => kind,
    }
}

/// The tabs after a session got another id.
pub open spec fn tabs_after(tabs: Seq<TabModel>, m: MappingModel) -> Seq<TabModel> {
    Seq::new(tabs.len(), |i: int| TabModel { kind: kind_after(tabs[i].kind, m), ..tabs[i] })
}

/// A session that was cut off.
pub open spec fn cut_off(slot: SlotModel, lang: Lang) -> SlotModel {
    if slot.session.closed {
        slot
    } else {
        SlotModel {
            session: SessionModel {
                closed: true,
                notice: Some(text::tr(lang, "terminal_reconnecting"@)),
                ..slot.session
            },
            ..slot
        }
    }
}

/// The terminals with one of them added, or put in the place of the one with
/// its tab id.
pub open spec fn with_slot(slots: Seq<SlotModel>, slot: SlotModel) -> Seq<SlotModel> {
    match tabs::slot_at(slots, slot.tab_id) {
        Some(i) => slots.update(i, slot),
        None => slots.push(slot),
    }
}

impl AppModel {
    /// The application with another session in one of its terminals.
    pub open spec fn with_session(self, i: int, s: SessionModel) -> AppModel {
        AppModel {
            terminal_sessions: self.terminal_sessions.update(
                i,
                SlotModel { session: s, ..self.terminal_sessions[i] },
            ),
            ..self
        }
    }

    /// A terminal on this machine opens, unless one is being opened.
    pub open spec fn open_local(self) -> (AppModel, Seq<CommandModel>) {
        if self.terminal_opening || !(self.screen is Main) || !self.connected {
            (self, Seq::empty())
        } else {
            (
                AppModel { terminal_opening: true, terminal_error: None, ..self },
                seq![CommandModel::OpenTerminal { host_id: None, title: Seq::empty() }],
            )
        }
    }

    /// A terminal on a host of the vault opens, unless one is being opened.
    pub open spec fn open_ssh(self, host_id: Seq<char>) -> (AppModel, Seq<CommandModel>) {
        if self.terminal_opening || !(self.screen is Main) {
            (self, Seq::empty())
        } else {
            match s3_main::host_with(self.hosts, host_id) {
                None => (
                    AppModel {
                        terminal_error: Some(text::tr(self.lang, "main_host_not_found"@)),
                        ..self
                    },
                    Seq::empty(),
                ),
                Some(h) => if !self.connected {
                    (self, Seq::empty())
                } else {
                    (
                        AppModel { terminal_opening: true, terminal_error: None, ..self },
                        seq![
                            CommandModel::OpenTerminal { host_id: Some(host_id), title: h.name },
                        ],
                    )
                },
            }
        }
    }

    /// A session was opened: it gets a tab. Away from the main screen it is
    /// closed again.
    pub open spec fn terminal_opened(
        self,
        session_id: Seq<char>,
        title: Seq<char>,
        host_id: Option<Seq<char>>,
    ) -> (AppModel, Seq<CommandModel>) {
        if !(self.screen is Main) {
            (
                AppModel { terminal_opening: false, ..self },
                if self.connected {
                    tabs::close_session(session_id)
                } else {
                    Seq::empty()
                },
            )
        } else {
            let number = self.next_terminal_number;
            let tab = TabModel::terminal(
                session_id,
                number,
                if host_id is Some {
                    text::plain(title)
                } else {
                    text::trf1(
                        self.lang,
                        "terminal_local_numbered"@,
                        strings::decimal(number as nat),
                    )
                },
            );
            (
                AppModel {
                    terminal_opening: false,
                    next_terminal_number: if number == u32::MAX {
                        number
                    } else {
                        (number + 1) as u32
                    },
                    terminal_sessions: with_slot(
                        self.terminal_sessions,
                        SlotModel {
                            tab_id: tab.id,
                            session: SessionModel::opened(
                                session_id,
                                host_id,
                                if title.len() == 0 {
                                    text::tr(self.lang, "terminal_local_title"@)
                                } else {
                                    text::plain(title)
                                },
                                40,
                                100,
                                self.terminal_appearance,
                            ),
                        },
                    ),
                    tabs: self.tabs.push(tab),
                    active_tab_id: tab.id,
                    show_connect_panel: false,
                    ..self
                },
                seq![CommandModel::Focus(Field::Terminal)],
            )
        }
    }

    /// An open terminal has the session.
    pub open spec fn runs(self, session_id: Seq<char>) -> bool {
        model::any_match(
            self.terminal_sessions,
            |s: SlotModel| s.session.session_id == session_id && !s.session.closed,
        )
    }

    /// The connection was cut: every terminal waits to be taken up again, and
    /// after five seconds a connection is tried, at most once in ten seconds.
    pub open spec fn disconnected(self, session_id: Seq<char>, now: u64) -> (
        AppModel,
        Seq<CommandModel>,
    ) {
        if !self.runs(session_id) {
            (self, Seq::empty())
        } else {
            let cut = AppModel {
                terminal_sessions: Seq::new(
                    self.terminal_sessions.len(),
                    |i: int| cut_off(self.terminal_sessions[i], self.lang),
                ),
                terminal_restore_pending: true,
                ..self
            };
            if self.cooling_down(now) {
                (cut, Seq::empty())
            } else {
                (
                    AppModel {
                        terminal_reconnect_cooldown: Some((now + 10_000) as u64),
                        terminal_reconnect_in_flight: true,
                        ..cut
                    },
                    seq![CommandModel::Connect { delay_seconds: 5, restoring: true }],
                )
            }
        }
    }

    /// No further reconnect begins yet.
    pub open spec fn cooling_down(self, now: u64) -> bool {
        self.terminal_reconnect_cooldown matches Some(until) && now < until
    }

    /// One session was taken up again, or another one took its place.
    pub open spec fn remapped(self, m: MappingModel) -> AppModel {
        let taken = match tabs::session_at(self.terminal_sessions, m.old_session_id) {
            Some(i) => self.with_session(
                i,
                taken_up(self.terminal_sessions[i].session, m, self.lang),
            ),
            None => self,
        };
        AppModel { tabs: tabs_after(self.tabs, m), ..taken }
    }

    /// Sessions were taken up again, one after another.
    pub open spec fn remapped_all(self, list: Seq<MappingModel>) -> AppModel
        decreases list.len(),
    {
        if list.len() == 0 {
            self
        } else {
            self.remapped_all(list.drop_last()).remapped(list.last())
        }
    }

    /// The terminals were taken up again.
    pub open spec fn reconnected(self, list: Seq<MappingModel>) -> AppModel {
        AppModel {
            connected: true,
            terminal_reconnect_cooldown: None,
            terminal_restore_pending: false,
            terminal_reconnect_in_flight: false,
            terminal_error: None,
            ..self
        }.remapped_all(list)
    }

    /// The terminals could not be taken up again; another try follows.
    pub open spec fn reconnect_failed(self, e: Seq<char>) -> (AppModel, Seq<CommandModel>) {
        let shown = text::trf1(self.lang, "terminal_reconnect_failed"@, e);
        (
            AppModel {
                terminal_reconnect_in_flight: false,
                terminal_opening: false,
                terminal_error: Some(shown),
                screen: ScreenModel::ConnectionFailure(shown),
                ..self
            },
            seq![CommandModel::After { seconds: 2, timer: Timer::ReconnectRetry }],
        )
    }

    pub open spec fn setup_error(self, e: Seq<char>) -> AppModel {
        AppModel {
            terminal_opening: false,
            terminal_error: Some(text::trf1(self.lang, "terminal_open_failed"@, e)),
            ..self
        }
    }

    /// The session of the active terminal, where there is one and a connection.
    pub open spec fn reachable(self) -> Option<SessionModel> {
        match self.active_slot() {
            Some(i) => if self.connected {
                Some(self.terminal_sessions[i].session)
            } else {
                None
            },
            None => None,
        }
    }

    /// Bytes go to the active terminal. One that has ended says so instead.
    pub open spec fn send_bytes(self, kind: Seq<char>, data: Seq<u8>, closed_key: Seq<char>) -> (
        AppModel,
        Seq<CommandModel>,
    ) {
        if data.len() == 0 || self.reachable() is None {
            (self, Seq::empty())
        } else {
            let s = self.reachable()->0;
            let i = self.active_slot()->0;
            if s.closed {
                (
                    self.with_session(
                        i,
                        SessionModel { notice: Some(text::tr(self.lang, closed_key)), ..s },
                    ),
                    Seq::empty(),
                )
            } else {
                (
                    self.with_session(i, SessionModel { cursor_on: true, ..s }),
                    seq![
                        CommandModel::Queue {
                            kind,
                            body: data_request(s.session_id, data),
                            notice_tab: Some(self.active_tab_id),
                        },
                    ],
                )
            }
        }
    }

    /// Input goes to the active terminal.
    pub open spec fn input(self, data: Seq<u8>) -> (AppModel, Seq<CommandModel>) {
        self.send_bytes(
            "SessionInput"@,
            data,
            if self.terminal_restore_pending {
                "terminal_reconnecting"@
            } else {
                "terminal_closed_input"@
            },
        )
    }

    /// The clipboard goes to the active terminal.
    pub open spec fn paste(self, data: Seq<u8>) -> (AppModel, Seq<CommandModel>) {
        self.send_bytes("PasteSession"@, data, "terminal_closed_paste"@)
    }

    /// The active terminal gets another size.
    pub open spec fn resize(self, cols: u16, rows: u16) -> (AppModel, Seq<CommandModel>) {
        match self.reachable() {
            None => (self, Seq::empty()),
            Some(s) => if s.closed || (s.grid.cols == cols && s.grid.rows == rows) {
                (self, Seq::empty())
            } else {
                (
                    self.with_session(
                        self.active_slot()->0,
                        SessionModel { grid: s.grid.after_reset(rows, cols), ..s },
                    ),
                    seq![
                        CommandModel::Queue {
                            kind: "ResizeSession"@,
                            body: resize_request(s.session_id, cols, rows),
                            notice_tab: Some(self.active_tab_id),
                        },
                    ],
                )
            },
        }
    }

    /// The active terminal scrolls through its history.
    pub open spec fn scroll(self, lines: i32) -> Seq<CommandModel> {
        match self.reachable() {
            None => Seq::empty(),
            Some(s) => if lines == 0 || s.closed {
                Seq::empty()
            } else {
                seq![
                    CommandModel::Queue {
                        kind: "ScrollSession"@,
                        body: scroll_request(s.session_id, lines),
                        notice_tab: Some(self.active_tab_id),
                    },
                ]
            },
        }
    }

    /// A request of a terminal could not be queued: it says why.
    pub open spec fn queue_failed(self, tab_id: Seq<char>, e: Seq<char>) -> AppModel {
        match tabs::slot_at(self.terminal_sessions, tab_id) {
            Some(i) => self.with_session(
                i,
                SessionModel {
                    notice: Some(text::plain(e)),
                    ..self.terminal_sessions[i].session
                },
            ),
            None => self,
        }
    }

    /// A frame of a session came: the first one falls on a blank grid. One that
    /// cannot be decoded is dropped.
    pub open spec fn frame_pushed(self, session_id: Seq<char>, bytes: Seq<u8>) -> AppModel {
        match (tabs::session_at(self.terminal_sessions, session_id), frame::decoded(bytes)) {
            (Some(i), Some(f)) => {
                let s = self.terminal_sessions[i].session;
                let grid = if s.grid.last_seq is None {
                    s.grid.after_reset(s.grid.rows, s.grid.cols)
                } else {
                    s.grid
                };
                self.with_session(
                    i,
                    SessionModel { grid: grid.with_frame(f), cursor_on: true, ..s },
                )
            },
            _ => self,
        }
    }

    /// The terminal with the session can take the frame.
    pub open spec fn takes_frame(self, session_id: Seq<char>, bytes: Seq<u8>) -> bool {
        match (tabs::session_at(self.terminal_sessions, session_id), frame::decoded(bytes)) {
            (Some(i), Some(f)) => self.terminal_sessions[i].session.grid.takes(f),
            _ => true,
        }
    }

    /// The cursor of the active terminal blinks, where it is to.
    pub open spec fn blink(self) -> AppModel {
        match self.active_slot() {
            Some(i) => {
                let s = self.terminal_sessions[i].session;
                self.with_session(
                    i,
                    SessionModel {
                        cursor_on: if s.appearance.cursor_blink && s.grid.cursor_visible
                            && !s.closed {
                            !s.cursor_on
                        } else {
                            true
                        },
                        ..s
                    },
                )
            },
            None => self,
        }
    }

    /// A session has ended. Where a connection to a host failed, the terminal
    /// says why.
    pub open spec fn session_closed(self, session_id: Seq<char>, exit_code: Option<u32>) -> AppModel {
        match tabs::session_at(self.terminal_sessions, session_id) {
            Some(i) => {
                let s = self.terminal_sessions[i].session;
                self.with_session(
                    i,
                    SessionModel {
                        closed: true,
                        exit_code,
                        notice: if s.remote_host_id is Some && exit_code is Some && exit_code->0
                            != 0 {
                            Some(text::tr(self.lang, failure_key(s.grid.text())))
                        } else {
                            s.notice
                        },
                        ..s
                    },
                )
            },
            None => self,
        }
    }
}

/// Changing one terminal changes its place in the list and nothing else.
pub proof fn lemma_slots_update(list: Seq<TabSession>, i: int, slot: TabSession)
    requires
        0 <= i < list.len(),
    ensures
        slot_models(list.update(i, slot)) == slot_models(list).update(i, slot@),
{
    assert(slot_models(list.update(i, slot)) =~= slot_models(list).update(i, slot@));
}

/// Another session with a whole grid keeps the list in order.
pub proof fn lemma_with_session_wf(app: AppModel, i: int, s: SessionModel)
    requires
        app.wf(),
        0 <= i < app.terminal_sessions.len(),
        s.grid.wf(),
    ensures
        app.with_session(i, s).wf(),
{
    let after = app.with_session(i, s).terminal_sessions;
    assert forall|a: int, b: int| 0 <= a < b < after.len() implies (#[trigger] after[a]).tab_id != (
    #[trigger] after[b]).tab_id by {
        assert(app.terminal_sessions[a].tab_id != app.terminal_sessions[b].tab_id);
    }
}

pub proof fn lemma_reset_wf(g: GridModel, rows: u16, cols: u16)
    ensures
        g.after_reset(rows, cols).wf(),
        g.after_reset(rows, cols).rows == rows,
        g.after_reset(rows, cols).cols == cols,
{
    assert(0 <= rows * cols) by (nonlinear_arith)
        requires
            0 <= rows,
            0 <= cols,
    ;
}

impl VidaApp {
    fn on_main(&self) -> (res: bool)
        ensures
            res == (self@.screen is Main),
    {
        match self.screen {
            Screen::Main(_) => true,
            _ => false,
        }
    }

    pub fn open_local(&mut self) -> (res: Vec<Command>)
        ensures
            (final(self)@, message::command_models(res@)) == old(self)@.open_local(),
    {
        if self.terminal_opening || !self.on_main() || !self.connected {
            return message::nothing();
        }
        self.terminal_opening = true;
        self.terminal_error = None;
        let title = String::new();
        proof {
            assert(title@ =~= Seq::<char>::empty());
        }
        message::one(Command::OpenTerminal { host_id: None, title })
    }

    pub fn open_ssh(&mut self, host_id: String) -> (res: Vec<Command>)
        ensures
            (final(self)@, message::command_models(res@)) == old(self)@.open_ssh(host_id@),
    {
        if self.terminal_opening || !self.on_main() {
            return message::nothing();
        }
        let title = match s3_main::find_host(&self.hosts, host_id.as_str()) {
            Some(host) => host.name.clone(),
            None => {
                self.terminal_error = Some(self.i18n.tr("main_host_not_found"));
                return message::nothing();
            },
        };
        if !self.connected {
            return message::nothing();
        }
        self.terminal_opening = true;
        self.terminal_error = None;
        message::one(Command::OpenTerminal { host_id: Some(host_id), title })
    }

    fn put_slot(&mut self, slot: TabSession)
        requires
            old(self)@.wf(),
            slot.session.grid@.wf(),
        ensures
            final(self)@.wf(),
            final(self)@ == (AppModel {
                terminal_sessions: with_slot(old(self)@.terminal_sessions, slot@),
                ..old(self)@
            }),
    {
        let ghost before = self.terminal_sessions@;
        match tabs::find_slot(&self.terminal_sessions, slot.tab_id.as_str()) {
            Some(i) => {
                self.terminal_sessions.set(i, slot);
                proof {
                    lemma_slots_update(before, i as int, slot);
                    let after = self@.terminal_sessions;
                    assert forall|a: int, b: int| 0 <= a < b < after.len() implies (
                    #[trigger] after[a]).tab_id != (#[trigger] after[b]).tab_id by {
                        assert(old(self)@.terminal_sessions[a].tab_id != old(
                            self,
                        )@.terminal_sessions[b].tab_id);
                    }
                }
            },
            None => {
                self.terminal_sessions.push(slot);
                proof {
                    let after = self@.terminal_sessions;
                    assert(after =~= slot_models(before).push(slot@));
                    assert forall|a: int, b: int| 0 <= a < b < after.len() implies (
                    #[trigger] after[a]).tab_id != (#[trigger] after[b]).tab_id by {
                        if b < before.len() {
                            assert(old(self)@.terminal_sessions[a].tab_id != old(
                                self,
                            )@.terminal_sessions[b].tab_id);
                        } else {
                            assert(before[a].tab_id@ != slot.tab_id@);
                        }
                    }
                    assert forall|a: int| 0 <= a < after.len() implies (
                    #[trigger] after[a]).session.grid.wf() by {
                        if a < before.len() {
                            assert(after[a] == old(self)@.terminal_sessions[a]);
                        }
                    }
                }
            },
        }
    }

    pub fn terminal_opened(
        &mut self,
        session_id: String,
        title: String,
        host_id: Option<String>,
    ) -> (res: Vec<Command>)
        requires
            old(self)@.wf(),
        ensures
            final(self)@.wf(),
            (final(self)@, message::command_models(res@)) == old(self)@.terminal_opened(
                session_id@,
                title@,
                strings::opt_text(host_id),
            ),
    {
        self.terminal_opening = false;
        if !self.on_main() {
            return if self.connected {
                tabs::closing_commands(session_id.as_str())
            } else {
                message::nothing()
            };
        }
        let number: u32 = self.next_terminal_number;
        if number < u32::MAX {
            self.next_terminal_number = number + 1;
        }
        let name = if host_id.is_some() {
            Text::plain(title.clone())
        } else {
            self.i18n.trf1("terminal_local_numbered", strings::decimal_text(number as u64))
        };
        let tab = Tab::terminal(session_id.clone(), number, name);
        let tab_id = tab.id.clone();
        let session_title = if title.as_str().is_empty() {
            self.i18n.tr("terminal_local_title")
        } else {
            Text::plain(title)
        };
        let session = TerminalSession::new(
            session_id,
            host_id,
            session_title,
            40,
            100,
            self.terminal_appearance.clone(),
        );
        self.put_slot(TabSession { tab_id: tab_id.clone(), session });
        let ghost before = self.tabs@;
        self.tabs.push(tab);
        proof {
            assert(screens::tab_models(self.tabs@) =~= screens::tab_models(before).push(tab@));
        }
        self.active_tab_id = tab_id;
        self.show_connect_panel = false;
        message::one(Command::Focus(Field::Terminal))
    }

    pub fn has_running(&self, session_id: &str) -> (res: bool)
        ensures
            res == self@.runs(session_id@),
    {
        let ghost all = self@.terminal_sessions;
        let ghost p = |s: SlotModel| s.session.session_id == session_id@ && !s.session.closed;
        let mut i: usize = 0;
        while i < self.terminal_sessions.len()
            invariant
                i <= self.terminal_sessions@.len(),
                all == slot_models(self.terminal_sessions@),
                p == (|s: SlotModel| s.session.session_id == session_id@ && !s.session.closed),
                forall|k: int| 0 <= k < i ==> !p(#[trigger] all[k]),
            decreases self.terminal_sessions@.len() - i,
        {
            let session = &self.terminal_sessions[i].session;
            if strings::text_eq(session.session_id.as_str(), session_id) && !session.closed {
                proof {
                    assert(p(all[i as int]));
                    model::lemma_first_index_some(all, p, i as int);
                }
                return true;
            }
            proof {
                assert(!p(all[i as int]));
            }
            i += 1;
        }
        proof {
            model::lemma_first_index_none(all, p);
        }
        false
    }

    fn cut_off_all(&mut self)
        requires
            old(self)@.wf(),
        ensures
            final(self)@.wf(),
            final(self)@ == (AppModel {
                terminal_sessions: Seq::new(
                    old(self)@.terminal_sessions.len(),
                    |i: int| cut_off(old(self)@.terminal_sessions[i], old(self)@.lang),
                ),
                ..old(self)@
            }),
    {
        let ghost start = self@.terminal_sessions;
        let i18n = self.i18n;
        let mut i: usize = 0;
        while i < self.terminal_sessions.len()
            invariant
                i <= self.terminal_sessions@.len(),
                start == old(self)@.terminal_sessions,
                i18n.lang == old(self)@.lang,
                self.terminal_sessions@.len() == start.len(),
                self@ == (AppModel { terminal_sessions: self@.terminal_sessions, ..old(self)@ }),
                forall|k: int|
                    0 <= k < start.len() ==> #[trigger] self@.terminal_sessions[k] == (if k < i {
                        cut_off(start[k], old(self)@.lang)
                    } else {
                        start[k]
                    }),
            decreases self.terminal_sessions@.len() - i,
        {
            let ghost before = self.terminal_sessions@;
            proof {
                assert(self@.terminal_sessions[i as int] == before[i as int]@);
            }
            let slot = &mut self.terminal_sessions[i];
            if !slot.session.closed {
                slot.session.closed = true;
                slot.session.notice = Some(i18n.tr("terminal_reconnecting"));
            }
            proof {
                let now = self.terminal_sessions@;
                assert(now =~= before.update(i as int, now[i as int]));
                lemma_slots_update(before, i as int, now[i as int]);
            }
            i += 1;
        }
        proof {
            let after = Seq::new(start.len(), |k: int| cut_off(start[k], old(self)@.lang));
            assert(self@.terminal_sessions =~= after);
            assert forall|a: int, b: int| 0 <= a < b < after.len() implies (
            #[trigger] after[a]).tab_id != (#[trigger] after[b]).tab_id by {
                assert(start[a].tab_id != start[b].tab_id);
            }
            assert forall|a: int| 0 <= a < after.len() implies (
            #[trigger] after[a]).session.grid.wf() by {
                assert(start[a].session.grid.wf());
            }
        }
    }

    pub fn disconnected(&mut self, session_id: &str, now: u64) -> (res: Vec<Command>)
        requires
            old(self)@.wf(),
            old(self)@.runs(session_id@) && !old(self)@.cooling_down(now) ==> now + 10_000
                <= u64::MAX,
        ensures
            final(self)@.wf(),
            (final(self)@, message::command_models(res@)) == old(self)@.disconnected(
                session_id@,
                now,
            ),
    {
        if !self.has_running(session_id) {
            return message::nothing();
        }
        self.cut_off_all();
        self.terminal_restore_pending = true;
        let cooling: bool = match self.terminal_reconnect_cooldown {
            Some(until) => now < until,
            None => false,
        };
        if cooling {
            return message::nothing();
        }
        self.terminal_reconnect_cooldown = Some(now + 10_000);
        self.terminal_reconnect_in_flight = true;
        message::one(Command::Connect { delay_seconds: 5, restoring: true })
    }

    fn remap(&mut self, m: &Mapping)
        requires
            old(self)@.wf(),
        ensures
            final(self)@.wf(),
            final(self)@ == old(self)@.remapped(m@),
    {
        let i18n = self.i18n;
        let ghost start = self@;
        match tabs::find_session(&self.terminal_sessions, m.old_session_id.as_str()) {
            Some(i) => {
                let ghost before = self.terminal_sessions@;
                proof {
                    let s = start.terminal_sessions[i as int].session;
                    assert(s == before[i as int].session@);
                    assert(s.grid.wf());
                    lemma_reset_wf(s.grid, s.grid.rows, s.grid.cols);
                    lemma_with_session_wf(start, i as int, taken_up(s, m@, start.lang));
                }
                let slot = &mut self.terminal_sessions[i];
                slot.session.session_id = m.new_session_id.clone();
                slot.session.closed = false;
                slot.session.exit_code = None;
                slot.session.notice = if m.replaced {
                    Some(i18n.tr("terminal_session_replaced"))
                } else {
                    None
                };
                let rows: u16 = slot.session.grid.rows;
                let cols: u16 = slot.session.grid.cols;
                slot.session.grid.reset(rows, cols);
                slot.session.cursor_on = true;
                proof {
                    let now = self.terminal_sessions@;
                    assert(now =~= before.update(i as int, now[i as int]));
                    lemma_slots_update(before, i as int, now[i as int]);
                }
            },
            None => {},
        }
        self.rename_sessions(m);
    }

    fn rename_sessions(&mut self, m: &Mapping)
        ensures
            final(self)@ == (AppModel { tabs: tabs_after(old(self)@.tabs, m@), ..old(self)@ }),
    {
        let ghost start = self@.tabs;
        let mut i: usize = 0;
        while i < self.tabs.len()
            invariant
                i <= self.tabs@.len(),
                start == old(self)@.tabs,
                self.tabs@.len() == start.len(),
                self@ == (AppModel { tabs: self@.tabs, ..old(self)@ }),
                forall|k: int|
                    0 <= k < start.len() ==> #[trigger] self@.tabs[k] == (if k < i {
                        tabs_after(start, m@)[k]
                    } else {
                        start[k]
                    }),
            decreases self.tabs@.len() - i,
        {
            let ghost before = self.tabs@;
            proof {
                assert(self@.tabs[i as int] == before[i as int]@);
            }
            let mine: bool = match &self.tabs[i].kind {
                TabKind::Terminal { session_id, number: _ } => strings::text_eq(
                    session_id.as_str(),
                    m.old_session_id.as_str(),
                ),
                _ => false,
            };
            if mine {
                let number: u32 = match &self.tabs[i].kind {
                    TabKind::Terminal { session_id: _, number } => *number,
                    _ => 0,
                };
                let tab = &mut self.tabs[i];
                tab.kind = TabKind::Terminal { session_id: m.new_session_id.clone(), number };
            }
            proof {
                let now = self.tabs@;
                assert(now =~= before.update(i as int, now[i as int]));
                assert forall|k: int| 0 <= k < start.len() implies #[trigger] self@.tabs[k] == (
                if k < i + 1 {
                    tabs_after(start, m@)[k]
                } else {
                    start[k]
                }) by {
                    if k != i {
                        assert(now[k] == before[k]);
                        assert(screens::tab_models(before)[k] == before[k]@);
                    }
                }
            }
            i += 1;
        }
        proof {
            assert(self@.tabs =~= tabs_after(start, m@));
        }
    }

    pub fn reconnected(&mut self, mappings: &Vec<Mapping>)
        requires
            old(self)@.wf(),
        ensures
            final(self)@.wf(),
            final(self)@ == old(self)@.reconnected(message::mapping_models(mappings@)),
    {
        self.connected = true;
        self.terminal_reconnect_cooldown = None;
        self.terminal_restore_pending = false;
        self.terminal_reconnect_in_flight = false;
        self.terminal_error = None;
        let ghost start = self@;
        let ghost all = message::mapping_models(mappings@);
        let mut i: usize = 0;
        proof {
            assert(all.take(0) =~= Seq::<MappingModel>::empty());
        }
        while i < mappings.len()
            invariant
                i <= mappings@.len(),
                all == message::mapping_models(mappings@),
                self@.wf(),
                self@ == start.remapped_all(all.take(i as int)),
            decreases mappings@.len() - i,
        {
            proof {
                assert(all.take(i + 1).drop_last() =~= all.take(i as int));
            }
            self.remap(&mappings[i]);
            i += 1;
        }
        proof {
            assert(all.take(i as int) =~= all);
        }
    }

    pub fn reconnect_failed(&mut self, e: String) -> (res: Vec<Command>)
        ensures
            (final(self)@, message::command_models(res@)) == old(self)@.reconnect_failed(e@),
    {
        self.terminal_reconnect_in_flight = false;
        self.terminal_opening = false;
        let shown = self.i18n.trf1("terminal_reconnect_failed", e);
        self.terminal_error = Some(shown.clone());
        self.screen = Screen::ConnectionFailure(s0_connection::State::new(shown));
        message::one(Command::After { seconds: 2, timer: Timer::ReconnectRetry })
    }

    pub fn setup_error(&mut self, e: String)
        ensures
            final(self)@ == old(self)@.setup_error(e@),
    {
        self.terminal_opening = false;
        self.terminal_error = Some(self.i18n.trf1("terminal_open_failed", e));
    }

    fn send_bytes(&mut self, kind: &str, data: &Vec<u8>, closed_key: &str) -> (res: Vec<Command>)
        requires
            old(self)@.wf(),
        ensures
            final(self)@.wf(),
            (final(self)@, message::command_models(res@)) == old(self)@.send_bytes(
                kind@,
                data@,
                closed_key@,
            ),
    {
        if data.len() == 0 || !self.connected {
            return message::nothing();
        }
        let i18n = self.i18n;
        let i: usize = match tabs::find_slot(
            &self.terminal_sessions,
            self.active_tab_id.as_str(),
        ) {
            Some(i) => i,
            None => return message::nothing(),
        };
        let ghost start = self@;
        let ghost before = self.terminal_sessions@;
        let ghost s = start.terminal_sessions[i as int].session;
        proof {
            assert(s == before[i as int].session@);
            assert(s.grid.wf());
            lemma_with_session_wf(
                start,
                i as int,
                SessionModel { notice: Some(text::tr(start.lang, closed_key@)), ..s },
            );
            lemma_with_session_wf(start, i as int, SessionModel { cursor_on: true, ..s });
        }
        let slot = &mut self.terminal_sessions[i];
        if slot.session.closed {
            slot.session.notice = Some(i18n.tr(closed_key));
            proof {
                let now = self.terminal_sessions@;
                assert(now =~= before.update(i as int, now[i as int]));
                lemma_slots_update(before, i as int, now[i as int]);
            }
            return message::nothing();
        }
        slot.session.cursor_on = true;
        let body = data_body(slot.session.session_id.as_str(), data);
        proof {
            let now = self.terminal_sessions@;
            assert(now =~= before.update(i as int, now[i as int]));
            lemma_slots_update(before, i as int, now[i as int]);
        }
        message::one(
            Command::Queue {
                kind: kind.to_string(),
                body,
                notice_tab: Some(self.active_tab_id.clone()),
            },
        )
    }

    pub fn input(&mut self, data: &Vec<u8>) -> (res: Vec<Command>)
        requires
            old(self)@.wf(),
        ensures
            final(self)@.wf(),
            (final(self)@, message::command_models(res@)) == old(self)@.input(data@),
    {
        if self.terminal_restore_pending {
            self.send_bytes("SessionInput", data, "terminal_reconnecting")
        } else {
            self.send_bytes("SessionInput", data, "terminal_closed_input")
        }
    }

    pub fn paste(&mut self, data: &Vec<u8>) -> (res: Vec<Command>)
        requires
            old(self)@.wf(),
        ensures
            final(self)@.wf(),
            (final(self)@, message::command_models(res@)) == old(self)@.paste(data@),
    {
        self.send_bytes("PasteSession", data, "terminal_closed_paste")
    }

    pub fn resize(&mut self, cols: u16, rows: u16) -> (res: Vec<Command>)
        requires
            old(self)@.wf(),
        ensures
            final(self)@.wf(),
            (final(self)@, message::command_models(res@)) == old(self)@.resize(cols, rows),
    {
        if !self.connected {
            return message::nothing();
        }
        let i: usize = match tabs::find_slot(
            &self.terminal_sessions,
            self.active_tab_id.as_str(),
        ) {
            Some(i) => i,
            None => return message::nothing(),
        };
        let ghost start = self@;
        let ghost before = self.terminal_sessions@;
        let ghost s = start.terminal_sessions[i as int].session;
        proof {
            assert(s == before[i as int].session@);
            assert(s.grid.wf());
            lemma_reset_wf(s.grid, rows, cols);
            lemma_with_session_wf(
                start,
                i as int,
                SessionModel { grid: s.grid.after_reset(rows, cols), ..s },
            );
        }
        let slot = &mut self.terminal_sessions[i];
        if slot.session.closed || (slot.session.grid.cols == cols && slot.session.grid.rows
            == rows) {
            proof {
                assert(self.terminal_sessions@ =~= before);
            }
            return message::nothing();
        }
        slot.session.grid.reset(rows, cols);
        let body = resize_body(slot.session.session_id.as_str(), cols, rows);
        proof {
            let now = self.terminal_sessions@;
            assert(now =~= before.update(i as int, now[i as int]));
            lemma_slots_update(before, i as int, now[i as int]);
        }
        message::one(
            Command::Queue {
                kind: "ResizeSession".to_string(),
                body,
                notice_tab: Some(self.active_tab_id.clone()),
            },
        )
    }

    pub fn scroll(&self, lines: i32) -> (res: Vec<Command>)
        ensures
            message::command_models(res@) == self@.scroll(lines),
    {
        if lines == 0 || !self.connected {
            return message::nothing();
        }
        match tabs::find_slot(&self.terminal_sessions, self.active_tab_id.as_str()) {
            Some(i) => {
                let session = &self.terminal_sessions[i].session;
                if session.closed {
                    return message::nothing();
                }
                message::one(
                    Command::Queue {
                        kind: "ScrollSession".to_string(),
                        body: scroll_body(session.session_id.as_str(), lines),
                        notice_tab: Some(self.active_tab_id.clone()),
                    },
                )
            },
            None => message::nothing(),
        }
    }

    pub fn queue_failed(&mut self, tab_id: &str, e: String)
        requires
            old(self)@.wf(),
        ensures
            final(self)@.wf(),
            final(self)@ == old(self)@.queue_failed(tab_id@, e@),
    {
        if let Some(i) = tabs::find_slot(&self.terminal_sessions, tab_id) {
            let ghost start = self@;
            let ghost before = self.terminal_sessions@;
            let ghost s = start.terminal_sessions[i as int].session;
            proof {
                assert(s == before[i as int].session@);
                assert(s.grid.wf());
                lemma_with_session_wf(
                    start,
                    i as int,
                    SessionModel { notice: Some(text::plain(e@)), ..s },
                );
            }
            let slot = &mut self.terminal_sessions[i];
            slot.session.notice = Some(Text::plain(e));
            proof {
                let now = self.terminal_sessions@;
                assert(now =~= before.update(i as int, now[i as int]));
                lemma_slots_update(before, i as int, now[i as int]);
            }
        }
    }

    pub fn frame_pushed(&mut self, session_id: &str, bytes: &Vec<u8>)
        requires
            old(self)@.wf(),
            old(self)@.takes_frame(session_id@, bytes@),
        ensures
            final(self)@.wf(),
            final(self)@ == old(self)@.frame_pushed(session_id@, bytes@),
    {
        let i: usize = match tabs::find_session(&self.terminal_sessions, session_id) {
            Some(i) => i,
            None => return ,
        };
        let decoded = match frame::decode_frame(bytes.as_slice()) {
            Some(decoded) => decoded,
            None => return ,
        };
        let ghost start = self@;
        let ghost before = self.terminal_sessions@;
        let ghost s = start.terminal_sessions[i as int].session;
        proof {
            assert(s == before[i as int].session@);
            assert(s.grid.wf());
            lemma_reset_wf(s.grid, s.grid.rows, s.grid.cols);
        }
        let slot = &mut self.terminal_sessions[i];
        if slot.session.grid.last_seq.is_none() {
            let rows: u16 = slot.session.grid.rows;
            let cols: u16 = slot.session.grid.cols;
            slot.session.grid.reset(rows, cols);
        }
        slot.session.apply_frame(&decoded);
        slot.session.cursor_on = true;
        proof {
            let now = self.terminal_sessions@;
            assert(now =~= before.update(i as int, now[i as int]));
            lemma_slots_update(before, i as int, now[i as int]);
            lemma_with_session_wf(start, i as int, now[i as int].session@);
        }
    }

    pub fn blink(&mut self)
        requires
            old(self)@.wf(),
        ensures
            final(self)@.wf(),
            final(self)@ == old(self)@.blink(),
    {
        if let Some(i) = tabs::find_slot(&self.terminal_sessions, self.active_tab_id.as_str()) {
            let ghost start = self@;
            let ghost before = self.terminal_sessions@;
            proof {
                assert(start.terminal_sessions[i as int].session == before[i as int].session@);
                assert(start.terminal_sessions[i as int].session.grid.wf());
            }
            let slot = &mut self.terminal_sessions[i];
            if slot.session.appearance.cursor_blink && slot.session.grid.cursor_visible
                && !slot.session.closed {
                slot.session.cursor_on = !slot.session.cursor_on;
            } else {
                slot.session.cursor_on = true;
            }
            proof {
                let now = self.terminal_sessions@;
                assert(now =~= before.update(i as int, now[i as int]));
                lemma_slots_update(before, i as int, now[i as int]);
                lemma_with_session_wf(start, i as int, now[i as int].session@);
            }
        }
    }

    pub fn session_closed(&mut self, session_id: &str, exit_code: Option<u32>)
        requires
            old(self)@.wf(),
        ensures
            final(self)@.wf(),
            final(self)@ == old(self)@.session_closed(session_id@, exit_code),
    {
        let i18n = self.i18n;
        if let Some(i) = tabs::find_session(&self.terminal_sessions, session_id) {
            let ghost start = self@;
            let ghost before = self.terminal_sessions@;
            proof {
                assert(start.terminal_sessions[i as int].session == before[i as int].session@);
                assert(start.terminal_sessions[i as int].session.grid.wf());
            }
            let slot = &mut self.terminal_sessions[i];
            slot.session.closed = true;
            slot.session.exit_code = exit_code;
            let failed: bool = match exit_code {
                Some(code) => code != 0,
                None => false,
            };
            if slot.session.remote_host_id.is_some() && failed {
                let output = slot.session.grid.plain_text();
                slot.session.notice = Some(classify_ssh_failure(&i18n, output.as_str()));
            }
            proof {
                let now = self.terminal_sessions@;
                assert(now =~= before.update(i as int, now[i as int]));
                lemma_slots_update(before, i as int, now[i as int]);
                lemma_with_session_wf(start, i as int, now[i as int].session@);
            }
        }
    }
}

// ---------------------------------------------------------------------------
// Laws
// ---------------------------------------------------------------------------

/// Within ten seconds a cut connection is tried again once, however many
/// sessions tell of it, and a manual try waits for that one.
pub proof fn law_reconnects_are_rare(
    app: AppModel,
    first: Seq<char>,
    second: Seq<char>,
    now: u64,
    later: u64,
)
    requires
        now <= later < now + 10_000 <= u64::MAX,
        app.disconnected(first, now).1.len() > 0,
    ensures
        app.disconnected(first, now).0.disconnected(second, later).1.len() == 0,
        app.disconnected(first, now).0.retry_connection().1.len() == 0,
{
}

/// A cut connection keeps every tab and every terminal in its tab.
pub proof fn law_disconnect_keeps_terminals(app: AppModel, session_id: Seq<char>, now: u64)
    ensures
        ({
            let after = app.disconnected(session_id, now).0;
            &&& after.tabs == app.tabs
            &&& after.terminal_sessions.len() == app.terminal_sessions.len()
            &&& forall|i: int|
                0 <= i < app.terminal_sessions.len() ==> (
                #[trigger] after.terminal_sessions[i]).tab_id == app.terminal_sessions[i].tab_id
        }),
{
}

/// Whatever ids the sessions get as they are taken up again, the tabs keep
/// their ids and their names, and each terminal stays in its tab.
pub proof fn law_reconnect_keeps_tab_ids(app: AppModel, list: Seq<MappingModel>)
    ensures
        ({
            let after = app.reconnected(list);
            &&& after.tabs.len() == app.tabs.len()
            &&& forall|i: int|
                0 <= i < app.tabs.len() ==> (#[trigger] after.tabs[i]).id == app.tabs[i].id
                    && after.tabs[i].name == app.tabs[i].name
            &&& after.terminal_sessions.len() == app.terminal_sessions.len()
            &&& forall|i: int|
                0 <= i < app.terminal_sessions.len() ==> (
                #[trigger] after.terminal_sessions[i]).tab_id == app.terminal_sessions[i].tab_id
        }),
{
    let begun = AppModel {
        connected: true,
        terminal_reconnect_cooldown: None,
        terminal_restore_pending: false,
        terminal_reconnect_in_flight: false,
        terminal_error: None,
        ..app
    };
    lemma_remapped_keeps_ids(begun, list);
}

proof fn lemma_remapped_keeps_ids(app: AppModel, list: Seq<MappingModel>)
    ensures
        ({
            let after = app.remapped_all(list);
            &&& after.tabs.len() == app.tabs.len()
            &&& forall|i: int|
                0 <= i < app.tabs.len() ==> (#[trigger] after.tabs[i]).id == app.tabs[i].id
                    && after.tabs[i].name == app.tabs[i].name
            &&& after.terminal_sessions.len() == app.terminal_sessions.len()
            &&& forall|i: int|
                0 <= i < app.terminal_sessions.len() ==> (
                #[trigger] after.terminal_sessions[i]).tab_id == app.terminal_sessions[i].tab_id
        }),
    decreases list.len(),
{
    if list.len() > 0 {
        lemma_remapped_keeps_ids(app, list.drop_last());
        let before = app.remapped_all(list.drop_last());
        let after = app.remapped_all(list);
        assert(after == before.remapped(list.last()));
        assert forall|i: int| 0 <= i < app.tabs.len() implies (#[trigger] after.tabs[i]).id
            == app.tabs[i].id && after.tabs[i].name == app.tabs[i].name by {
            assert(before.tabs[i].id == app.tabs[i].id);
        }
        assert forall|i: int| 0 <= i < app.terminal_sessions.len() implies (
        #[trigger] after.terminal_sessions[i]).tab_id == app.terminal_sessions[i].tab_id by {
            assert(before.terminal_sessions[i].tab_id == app.terminal_sessions[i].tab_id);
        }
    }
}

/// A failed connection is explained by what the terminal shows, in whatever case
/// it is written: a refused login before anything else, then a refused, a
/// missing and an unknown host, and a changed key.
pub proof fn law_failures_are_explained(output: Seq<char>)
    ensures
        ({
            let t = Seq::new(output.len(), |i: int| strings::ascii_lower(output[i]));
            let says = |part: Seq<char>| strings::has_part(t, part);
            let login = says("permission denied"@) || says("authentication failed"@) || says(
                "too many authentication failures"@,
            );
            let refused = says("connection refused"@);
            let away = says("operation timed out"@) || says("connection timed out"@) || says(
                "no route to host"@,
            ) || says("network is unreachable"@);
            let unknown = says("could not resolve hostname"@) || says(
                "name or service not known"@,
            );
            let changed = says("host key verification failed"@) || says(
                "remote host identification has changed"@,
            );
            let key = failure_key(output);
            &&& login ==> key == "terminal_ssh_auth_failed"@
            &&& refused && !login ==> key == "terminal_ssh_connection_refused"@
            &&& away && !refused && !login ==> key == "terminal_ssh_unreachable"@
            &&& unknown && !away && !refused && !login ==> key == "terminal_ssh_dns_failed"@
            &&& changed && !unknown && !away && !refused && !login ==> key
                == "terminal_ssh_host_key_failed"@
            &&& !changed && !unknown && !away && !refused && !login ==> key
                == "terminal_ssh_failed_generic"@
        }),
{
    assert(ascii_lowered(output) =~= Seq::new(
        output.len(),
        |i: int| strings::ascii_lower(output[i]),
    ));
}

/// A terminal that was taken up again runs under its new session with a blank
/// grid of its size; one that was replaced says so.
pub proof fn law_taken_up_terminal_runs(s: SessionModel, m: MappingModel, lang: Lang)
    ensures
        ({
            let after = taken_up(s, m, lang);
            &&& after.session_id == m.new_session_id
            &&& !after.closed
            &&& after.exit_code is None
            &&& after.notice is Some <==> m.replaced
            &&& after.grid.rows == s.grid.rows
            &&& after.grid.cols == s.grid.cols
            &&& after.cursor_on
            &&& after.title == s.title
            &&& after.remote_host_id == s.remote_host_id
        }),
{
}

/// A request that could not be sent is told in its own terminal and nowhere else;
/// a terminal that could not be opened is told with its error, and another can be
/// opened.
pub proof fn law_failed_requests_are_told(app: AppModel, tab_id: Seq<char>, e: Seq<char>, i: int)
    requires
        0 <= i < app.terminal_sessions.len(),
        app.terminal_sessions[i].tab_id == tab_id,
        forall|j: int| 0 <= j < i ==> (#[trigger] app.terminal_sessions[j]).tab_id != tab_id,
    ensures
        ({
            let after = app.queue_failed(tab_id, e);
            &&& after.terminal_sessions[i].session.notice == Some(seq![text::SpanModel::Plain(e)])
            &&& after.terminal_sessions[i].session.session_id
                == app.terminal_sessions[i].session.session_id
            &&& after.terminal_sessions[i].session.grid == app.terminal_sessions[i].session.grid
            &&& after.terminal_sessions.len() == app.terminal_sessions.len()
            &&& forall|j: int|
                0 <= j < app.terminal_sessions.len() && j != i ==> (
                #[trigger] after.terminal_sessions[j]) == app.terminal_sessions[j]
        }),
        app.setup_error(e).terminal_error == Some(
            seq![
                text::SpanModel::Translated {
                    lang: app.lang,
                    key: "terminal_open_failed"@,
                    args: seq![text::ArgModel::Plain(e)],
                },
            ],
        ),
        !app.setup_error(e).terminal_opening,
        app.setup_error(e).terminal_sessions == app.terminal_sessions,
{
    let p = |s: SlotModel| s.tab_id == tab_id;
    assert(model::first_at(app.terminal_sessions, p, i));
    model::lemma_first_index_some(app.terminal_sessions, p, i);
}

/// A session that got another id runs on in its own tab; every other terminal
/// and every other tab stays as it is.
pub proof fn law_taken_up_session_keeps_its_tab(tabs: Seq<TabModel>, m: MappingModel, i: int)
    requires
        0 <= i < tabs.len(),
    ensures
        ({
            let after = tabs_after(tabs, m);
            let own = tabs[i].kind is Terminal && tabs[i].kind->session_id == m.old_session_id;
            &&& after.len() == tabs.len()
            &&& after[i].id == tabs[i].id
            &&& after[i].name == tabs[i].name
            &&& own ==> after[i].kind == (TabKindModel::Terminal {
                session_id: m.new_session_id,
                number: tabs[i].kind->number,
            })
            &&& !own ==> after[i] == tabs[i]
        }),
{
}

} // verus!
