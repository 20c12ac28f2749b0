//! A terminal in a tab.
use vstd::prelude::*;

use crate::strings;
use crate::term::client_grid::{ClientGrid, GridModel};
use crate::term::frame::TerminalFrame;
use crate::term::primitive::{AppearanceModel, TerminalAppearance};
use crate::text;
use crate::text::{SpanModel, Text};

verus! {

/// A session of the daemon and what its tab shows of it.
#[derive(Debug)]
pub struct TerminalSession {
    pub session_id: String,
    /// The host of the vault that the session is connected to.
    pub remote_host_id: Option<String>,
    pub title: Text,
    pub grid: ClientGrid,
    pub closed: bool,
    /// The exit code of the shell, where it is known.
    pub exit_code: Option<u32>,
    pub notice: Option<Text>,
    pub appearance: TerminalAppearance,
    pub cursor_on: bool,
}

#[verifier::ext_equal]
pub struct SessionModel {
    pub session_id: Seq<char>,
    pub remote_host_id: Option<Seq<char>>,
    pub title: Seq<SpanModel>,
    pub grid: GridModel,
    pub closed: bool,
    pub exit_code: Option<u32>,
    pub notice: Option<Seq<SpanModel>>,
    pub appearance: AppearanceModel,
    pub cursor_on: bool,
}

impl View for TerminalSession {
    type V = SessionModel;

    open spec fn view(&self) -> SessionModel {
        SessionModel {
            session_id: self.session_id@,
            remote_host_id: strings::opt_text(self.remote_host_id),
            title: self.title@,
            grid: self.grid@,
            closed: self.closed,
            exit_code: self.exit_code,
            notice: text::opt_spans(self.notice),
            appearance: self.appearance@,
            cursor_on: self.cursor_on,
        }
    }
}

impl SessionModel {
    /// A session that was just opened.
    pub open spec fn opened(
        session_id: Seq<char>,
        remote_host_id: Option<Seq<char>>,
        title: Seq<SpanModel>,
        rows: u16,
        cols: u16,
        appearance: AppearanceModel,
    ) -> SessionModel {
        SessionModel {
            session_id,
            remote_host_id,
            title,
            grid: GridModel::blank(rows, cols),
            closed: false,
            exit_code: None,
            notice: None,
            appearance,
            cursor_on: true,
        }
    }
}

/// The line that tells the state of a session.
#[derive(Debug, PartialEq)]
pub struct Status {
    pub text: String,
    pub ended: bool,
}

impl SessionModel {
    /// The line that tells the state of a session.
    pub open spec fn status(self) -> Seq<char> {
        if !self.closed {
            "会话 "@ + self.session_id
        } else {
            match self.exit_code {
                Some(code) => "会话已结束（shell 退出，exit_code="@ + strings::decimal(code as nat)
                    + "）"@,
                None => "会话已结束（shell 退出，退出码未知）"@,
            }
        }
    }
}

impl TerminalSession {
    pub fn new(
        session_id: String,
        remote_host_id: Option<String>,
        title: Text,
        rows: u16,
        cols: u16,
        appearance: TerminalAppearance,
    ) -> (res: Self)
        ensures
            res@ == SessionModel::opened(
                session_id@,
                strings::opt_text(remote_host_id),
                title@,
                rows,
                cols,
                appearance@,
            ),
            res.grid@.wf(),
    {
        TerminalSession {
            session_id,
            remote_host_id,
            title,
            grid: ClientGrid::new(rows, cols),
            closed: false,
            exit_code: None,
            notice: None,
            appearance,
            cursor_on: true,
        }
    }

    /// Applies a frame to the grid.
    pub fn apply_frame(&mut self, frame: &TerminalFrame)
        requires
            old(self).grid@.wf(),
            old(self).grid@.takes(frame@),
        ensures
            final(self).grid@.wf(),
            final(self)@ == (SessionModel {
                grid: old(self)@.grid.with_frame(frame@),
                ..old(self)@
            }),
    {
        self.grid.apply_frame(frame);
    }

    /// A copy of the grid, for drawing.
    pub fn snapshot(&self) -> (res: ClientGrid)
        ensures
            res@ == self.grid@,
    {
        self.grid.clone()
    }

    /// The line that tells the state of the session.
    pub fn shown(&self) -> (res: Status)
        ensures
            res.text@ == self@.status(),
            res.ended == self.closed,
    {
        let text = if !self.closed {
            strings::concat("会话 ", self.session_id.as_str())
        } else {
            match self.exit_code {
                Some(code) => {
                    let digits = strings::decimal_text(code as u64);
                    strings::concat3("会话已结束（shell 退出，exit_code=", digits.as_str(), "）")
                },
                None => "会话已结束（shell 退出，退出码未知）".to_string(),
            }
        };
        Status { text, ended: self.closed }
    }
}

/// A terminal opens empty and running, with the session, the host, the title and
/// the size that it was given.
pub proof fn law_opened_terminal(
    session_id: Seq<char>,
    host: Option<Seq<char>>,
    title: Seq<SpanModel>,
    rows: u16,
    cols: u16,
    appearance: AppearanceModel,
)
    ensures
        ({
            let s = SessionModel::opened(session_id, host, title, rows, cols, appearance);
            &&& s.session_id == session_id
            &&& s.remote_host_id == host
            &&& s.title == title
            &&& s.grid.rows == rows
            &&& s.grid.cols == cols
            &&& s.appearance == appearance
            &&& !s.closed
            &&& s.exit_code is None
            &&& s.notice is None
            &&& s.cursor_on
        }),
{
}

/// The status of a terminal names its session while it runs, and after that its
/// exit code, where it is known.
pub proof fn law_status_of_a_terminal(s: SessionModel)
    ensures
        !s.closed ==> strings::stripped(s.status(), "会话 "@) == Some(s.session_id),
        s.closed && s.exit_code is Some ==> s.status() == "会话已结束（shell 退出，exit_code="@
            + strings::decimal(s.exit_code->0 as nat) + "）"@,
        s.closed && s.exit_code is None ==> s.status()
            == "会话已结束（shell 退出，退出码未知）"@,
{
    strings::law_cutting_undoes_writing(s.session_id, "会话 "@);
}

} // verus!
