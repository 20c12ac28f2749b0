//! The bridge for agents: when a request is sent again, and what agents are
//! told.
use vstd::prelude::*;

use crate::json;
use crate::json::{Json, JsonModel};
use crate::strings;

verus! {

// ---------------------------------------------------------------------------
// Requests
// ---------------------------------------------------------------------------

/// What a request does, which decides whether it may be sent again after its
/// reply was lost.
#[derive(Debug, Clone, Copy, PartialEq, Eq, Structural)]
pub enum RequestKind {
    /// It only reads.
    Read,
    /// It opens a session; opening the same one again gives the one that is
    /// open.
    OpenSession,
    /// It sends a command to a terminal.
    Exec,
    /// It fills in the editor of a host.
    PrepareHost,
    /// It writes into the notes of a host.
    UpdateNotes,
}

impl RequestKind {
    /// Sending it twice does no more than sending it once.
    pub open spec fn repeatable(self) -> bool {
        self is Read || self is OpenSession
    }
}

/// How far a request has come.
#[derive(Debug)]
pub enum Stage {
    Connecting,
    Sending,
    /// The first try failed with this error.
    Reconnecting(String),
    Resending,
}

#[verifier::ext_equal]
pub enum StageModel {
    Connecting,
    Sending,
    Reconnecting(Seq<char>),
    Resending,
}

impl View for Stage {
    type V = StageModel;

    open spec fn view(&self) -> StageModel {
        match self {
            Stage::Connecting => StageModel::Connecting,
            Stage::Sending => StageModel::Sending,
            Stage::Reconnecting(e) => StageModel::Reconnecting(e@),
            Stage::Resending => StageModel::Resending,
        }
    }
}

/// What came of the last action.
#[derive(Debug)]
pub enum Event {
    Connected,
    ConnectFailed(String),
    Replied(Json),
    Refused(String),
}

#[verifier::ext_equal]
pub enum EventModel {
    Connected,
    ConnectFailed(Seq<char>),
    Replied(JsonModel),
    Refused(Seq<char>),
}

impl View for Event {
    type V = EventModel;

    open spec fn view(&self) -> EventModel {
        match self {
            Event::Connected => EventModel::Connected,
            Event::ConnectFailed(e) => EventModel::ConnectFailed(e@),
            Event::Replied(value) => EventModel::Replied(value@),
            Event::Refused(e) => EventModel::Refused(e@),
        }
    }
}

/// What to do next.
#[derive(Debug)]
pub enum Action {
    Connect(Stage),
    Send(Stage),
    /// Give up the connection and make another one.
    Reconnect(Stage),
    Succeed(Json),
    Fail(String),
    /// Give up the connection and fail.
    DropAndFail(String),
}

#[verifier::ext_equal]
pub enum ActionModel {
    Connect(StageModel),
    Send(StageModel),
    Reconnect(StageModel),
    Succeed(JsonModel),
    Fail(Seq<char>),
    DropAndFail(Seq<char>),
}

impl View for Action {
    type V = ActionModel;

    open spec fn view(&self) -> ActionModel {
        match self {
            Action::Connect(stage) => ActionModel::Connect(stage@),
            Action::Send(stage) => ActionModel::Send(stage@),
            Action::Reconnect(stage) => ActionModel::Reconnect(stage@),
            Action::Succeed(value) => ActionModel::Succeed(value@),
            Action::Fail(e) => ActionModel::Fail(e@),
            Action::DropAndFail(e) => ActionModel::DropAndFail(e@),
        }
    }
}

/// What is said where no connection can be made.
pub open spec fn connect_error(e: Seq<char>) -> Seq<char> {
    "Unable to connect to the Vida daemon as an Agent. Start vida-daemon and make sure its local configuration files are accessible, then call this tool again. Details: "@
        + e
}

/// What is said where the connection cannot be made again.
pub open spec fn reconnect_error(kind: RequestKind, first: Seq<char>, e: Seq<char>) -> Seq<char> {
    (if kind is OpenSession {
        "The SSH session result could not be confirmed and reconnecting to Vida failed. Inspect the Vida GUI before trying again. First error: "@
    } else {
        "The Vida daemon connection was lost and reconnecting failed. Start vida-daemon, then call this read-only tool again. First error: "@
    }) + first + ". Reconnect error: "@ + connect_error(e)
}

/// What is said where the second try failed too.
pub open spec fn second_error(kind: RequestKind, e: Seq<char>) -> Seq<char> {
    (if kind is OpenSession {
        "Vida could not open or recover the configured SSH session. The vault may be locked, the host may have been removed, or SSH could not start. Unlock Vida and inspect the host configuration, then retry. Details: "@
    } else {
        "The Vida daemon rejected the read-only request after reconnecting. The vault may be locked or the session may no longer exist. Inspect the Vida GUI, then retry. Details: "@
    }) + e
}

/// What is said where it is not known what became of a request that is not sent
/// again.
pub open spec fn unconfirmed(kind: RequestKind, e: Seq<char>) -> Seq<char> {
    (if kind is Exec {
        "The command result could not be confirmed, so Vida did not retry it. Inspect the target with screen_read and check the Vida GUI approval/audit state before deciding whether to submit a new command. Details: "@
    } else if kind is PrepareHost {
        "The host draft result could not be confirmed, so Vida did not retry it. Check whether the add-host editor already opened in the Vida GUI before submitting another draft. The vault may also be locked. Details: "@
    } else {
        "The host notes result could not be confirmed, so Vida did not retry it. Read the host notes again before deciding whether another update is needed. The vault may also be locked. Details: "@
    }) + e
}

/// The event can follow in the stage.
pub open spec fn fits(stage: StageModel, event: EventModel) -> bool {
    match stage {
        StageModel::Connecting | StageModel::Reconnecting(_) => event is Connected
            || event is ConnectFailed,
        StageModel::Sending | StageModel::Resending => event is Replied || event is Refused,
    }
}

/// What to do next.
pub open spec fn next_action(kind: RequestKind, stage: StageModel, event: EventModel) -> ActionModel {
    match (stage, event) {
        (StageModel::Connecting, EventModel::ConnectFailed(e)) => ActionModel::Fail(
            connect_error(e),
        ),
        (StageModel::Connecting, _) => ActionModel::Send(StageModel::Sending),
        (_, EventModel::Replied(value)) => ActionModel::Succeed(value),
        (StageModel::Sending, EventModel::Refused(e)) => if kind.repeatable() {
            ActionModel::Reconnect(StageModel::Reconnecting(e))
        } else {
            ActionModel::DropAndFail(unconfirmed(kind, e))
        },
        (StageModel::Reconnecting(first), EventModel::ConnectFailed(e)) => ActionModel::Fail(
            reconnect_error(kind, first, e),
        ),
        (StageModel::Reconnecting(_), _) => ActionModel::Send(StageModel::Resending),
        (StageModel::Resending, EventModel::Refused(e)) => ActionModel::Fail(
            second_error(kind, e),
        ),
        _ => ActionModel::Fail(Seq::empty()),
    }
}

fn connect_error_text(e: &str) -> (res: String)
    ensures
        res@ == connect_error(e@),
{
    strings::concat(
        "Unable to connect to the Vida daemon as an Agent. Start vida-daemon and make sure its local configuration files are accessible, then call this tool again. Details: ",
        e,
    )
}

fn reconnect_error_text(kind: RequestKind, first: &str, e: &str) -> (res: String)
    ensures
        res@ == reconnect_error(kind, first@, e@),
{
    let head = match kind {
        RequestKind::OpenSession =>
            "The SSH session result could not be confirmed and reconnecting to Vida failed. Inspect the Vida GUI before trying again. First error: ",
        _ =>
            "The Vida daemon connection was lost and reconnecting failed. Start vida-daemon, then call this read-only tool again. First error: ",
    };
    let mut out = strings::concat3(head, first, ". Reconnect error: ");
    let reason = connect_error_text(e);
    out.append(reason.as_str());
    out
}

fn second_error_text(kind: RequestKind, e: &str) -> (res: String)
    ensures
        res@ == second_error(kind, e@),
{
    let head = match kind {
        RequestKind::OpenSession =>
            "Vida could not open or recover the configured SSH session. The vault may be locked, the host may have been removed, or SSH could not start. Unlock Vida and inspect the host configuration, then retry. Details: ",
        _ =>
            "The Vida daemon rejected the read-only request after reconnecting. The vault may be locked or the session may no longer exist. Inspect the Vida GUI, then retry. Details: ",
    };
    strings::concat(head, e)
}

fn unconfirmed_text(kind: RequestKind, e: &str) -> (res: String)
    ensures
        res@ == unconfirmed(kind, e@),
{
    let head = match kind {
        RequestKind::Exec =>
            "The command result could not be confirmed, so Vida did not retry it. Inspect the target with screen_read and check the Vida GUI approval/audit state before deciding whether to submit a new command. Details: ",
        RequestKind::PrepareHost =>
            "The host draft result could not be confirmed, so Vida did not retry it. Check whether the add-host editor already opened in the Vida GUI before submitting another draft. The vault may also be locked. Details: ",
        _ =>
            "The host notes result could not be confirmed, so Vida did not retry it. Read the host notes again before deciding whether another update is needed. The vault may also be locked. Details: ",
    };
    strings::concat(head, e)
}

/// How a request begins: a connection that is there is used.
pub open spec fn begun(connected: bool) -> ActionModel {
    if connected {
        ActionModel::Send(StageModel::Sending)
    } else {
        ActionModel::Connect(StageModel::Connecting)
    }
}

/// How a request begins.
pub fn begin(connected: bool) -> (res: Action)
    ensures
        res@ == begun(connected),
{
    if connected {
        Action::Send(Stage::Sending)
    } else {
        Action::Connect(Stage::Connecting)
    }
}

/// What to do next.
pub fn next(kind: RequestKind, stage: Stage, event: Event) -> (res: Action)
    requires
        fits(stage@, event@),
    ensures
        res@ == next_action(kind, stage@, event@),
{
    match event {
        Event::Replied(value) => Action::Succeed(value),
        Event::Connected => match stage {
            Stage::Connecting => Action::Send(Stage::Sending),
            _ => Action::Send(Stage::Resending),
        },
        Event::ConnectFailed(e) => match stage {
            Stage::Reconnecting(first) => Action::Fail(
                reconnect_error_text(kind, first.as_str(), e.as_str()),
            ),
            _ => Action::Fail(connect_error_text(e.as_str())),
        },
        Event::Refused(e) => match stage {
            Stage::Sending => match kind {
                RequestKind::Read => Action::Reconnect(Stage::Reconnecting(e)),
                RequestKind::OpenSession => Action::Reconnect(Stage::Reconnecting(e)),
                _ => Action::DropAndFail(unconfirmed_text(kind, e.as_str())),
            },
            _ => Action::Fail(second_error_text(kind, e.as_str())),
        },
    }
}

/// What a request has come to after some events, and how often it was sent.
pub open spec fn run(kind: RequestKind, connected: bool, events: Seq<EventModel>) -> (ActionModel, nat)
    decreases events.len(),
{
    if events.len() == 0 {
        (
            begun(connected),
            if connected {
                1
            } else {
                0
            },
        )
    } else {
        let (action, sent) = run(kind, connected, events.drop_last());
        match action {
            ActionModel::Connect(stage)
            | ActionModel::Send(stage)
            | ActionModel::Reconnect(stage) => {
                let after = next_action(kind, stage, events.last());
                (
                    after,
                    if after is Send {
                        sent + 1
                    } else {
                        sent
                    },
                )
            },
            _ => (action, sent),
        }
    }
}

/// Each event could follow in the stage that was reached.
pub open spec fn possible(kind: RequestKind, connected: bool, events: Seq<EventModel>) -> bool
    decreases events.len(),
{
    if events.len() == 0 {
        true
    } else {
        possible(kind, connected, events.drop_last()) && match run(
            kind,
            connected,
            events.drop_last(),
        ).0 {
            ActionModel::Connect(stage)
            | ActionModel::Send(stage)
            | ActionModel::Reconnect(stage) => fits(stage, events.last()),
            _ => false,
        }
    }
}

/// Whatever happens, a request that changes something is sent at most once, and
/// any other at most twice.
pub proof fn law_writes_are_sent_once(kind: RequestKind, connected: bool, events: Seq<EventModel>)
    requires
        possible(kind, connected, events),
    ensures
        !kind.repeatable() ==> run(kind, connected, events).1 <= 1,
        run(kind, connected, events).1 <= 2,
{
    lemma_sent(kind, connected, events);
}

proof fn lemma_sent(kind: RequestKind, connected: bool, events: Seq<EventModel>)
    requires
        possible(kind, connected, events),
    ensures
        ({
            let (action, sent) = run(kind, connected, events);
            match action {
                ActionModel::Connect(stage) => sent == 0 && stage is Connecting,
                ActionModel::Send(stage) => {
                    ||| stage is Sending && sent == 1
                    ||| stage is Resending && sent == 2 && kind.repeatable()
                },
                ActionModel::Reconnect(stage) => sent == 1 && stage is Reconnecting
                    && kind.repeatable(),
                _ => sent <= 2 && (!kind.repeatable() ==> sent <= 1),
            }
        }),
    decreases events.len(),
{
    if events.len() > 0 {
        lemma_sent(kind, connected, events.drop_last());
    }
}

// ---------------------------------------------------------------------------
// What agents are told
// ---------------------------------------------------------------------------

/// What is said of a reply that cannot be read.
pub fn unexpected_response(operation: &str, details: &str) -> (res: String)
    ensures
        res@ == "Vida returned an unexpected "@ + operation@
            + " response. Update vida-mcp, vidactl, the GUI, and vida-daemon together, then retry. Details: "@
            + details@,
{
    let mut out = strings::concat3(
        "Vida returned an unexpected ",
        operation,
        " response. Update vida-mcp, vidactl, the GUI, and vida-daemon together, then retry. Details: ",
    );
    out.append(details);
    out
}

/// The text of a value, or of a member of it.
pub open spec fn text_or_member(item: JsonModel, key: Seq<char>) -> Option<Seq<char>> {
    match item.text() {
        Some(s) => Some(s),
        None => item.text_at(key),
    }
}

/// The texts of the values that have one, in order.
pub open spec fn listed(items: Seq<JsonModel>, key: Seq<char>) -> Seq<Seq<char>>
    decreases items.len(),
{
    if items.len() == 0 {
        Seq::empty()
    } else {
        match text_or_member(items.last(), key) {
            Some(s) => listed(items.drop_last(), key).push(s),
            None => listed(items.drop_last(), key),
        }
    }
}

/// The texts of an array; none where there is no array.
pub open spec fn listed_in(value: Option<JsonModel>, key: Seq<char>) -> Seq<Seq<char>> {
    match value {
        Some(v) => match v.items() {
            Some(items) => listed(items, key),
            None => Seq::empty(),
        },
        None => Seq::empty(),
    }
}

/// The view of an optional value.
pub open spec fn opt_json(value: Option<&Json>) -> Option<JsonModel> {
    match value {
        Some(v) => Some(v@),
        None => None,
    }
}

/// The texts of an array: an item is a text, or an object with one under a key.
pub fn string_list(value: Option<&Json>, object_key: &str) -> (res: Vec<String>)
    ensures
        strings::texts(res@) == listed_in(opt_json(value), object_key@),
{
    let mut out: Vec<String> = Vec::new();
    proof {
        assert(strings::texts(out@) =~= Seq::<Seq<char>>::empty());
    }
    let items = match value {
        Some(v) => match v.as_array() {
            Some(items) => items,
            None => return out,
        },
        None => return out,
    };
    let ghost all = json::models(items@);
    let mut i: usize = 0;
    proof {
        assert(all.take(0) =~= Seq::<JsonModel>::empty());
    }
    while i < items.len()
        invariant
            i <= items@.len(),
            all == json::models(items@),
            strings::texts(out@) == listed(all.take(i as int), object_key@),
        decreases items@.len() - i,
    {
        proof {
            assert(all.take(i + 1).drop_last() =~= all.take(i as int));
            assert(all.take(i + 1).last() == items@[i as int]@);
        }
        let found: Option<String> = match items[i].as_str() {
            Some(s) => Some(s.to_string()),
            None => items[i].string_at(object_key),
        };
        let ghost before = out@;
        if let Some(s) = found {
            out.push(s);
            proof {
                assert(strings::texts(out@) =~= strings::texts(before).push(s@));
            }
        }
        i += 1;
    }
    proof {
        assert(all.take(i as int) =~= all);
    }
    out
}

/// What an agent is told of a command.
#[derive(Debug)]
pub struct ExecOutput {
    pub session_id: String,
    /// `sent`, `needs_approval` or `rejected`.
    pub status: String,
    pub approval_id: Option<String>,
    pub expires_at: Option<i64>,
    pub reasons: Vec<String>,
    pub matched_rules: Vec<String>,
    pub reason: Option<String>,
    pub message: Option<String>,
    pub next_action: String,
}

#[verifier::ext_equal]
pub struct ExecModel {
    pub session_id: Seq<char>,
    pub status: Seq<char>,
    pub approval_id: Option<Seq<char>>,
    pub expires_at: Option<int>,
    pub reasons: Seq<Seq<char>>,
    pub matched_rules: Seq<Seq<char>>,
    pub reason: Option<Seq<char>>,
    pub message: Option<Seq<char>>,
    pub next_action: Seq<char>,
}

impl View for ExecOutput {
    type V = ExecModel;

    open spec fn view(&self) -> ExecModel {
        ExecModel {
            session_id: self.session_id@,
            status: self.status@,
            approval_id: strings::opt_text(self.approval_id),
            expires_at: opt_int(self.expires_at),
            reasons: strings::texts(self.reasons@),
            matched_rules: strings::texts(self.matched_rules@),
            reason: strings::opt_text(self.reason),
            message: strings::opt_text(self.message),
            next_action: self.next_action@,
        }
    }
}

/// An agent knows what the status means.
pub open spec fn known_status(status: Seq<char>) -> bool {
    status == "sent"@ || status == "needs_approval"@ || status == "rejected"@
}

/// The status of a command; it counts as rejected where none is given, or none
/// that an agent knows.
pub open spec fn exec_status(value: JsonModel) -> Seq<char> {
    match value.text_at("status"@) {
        Some(status) => if known_status(status) {
            status
        } else {
            "rejected"@
        },
        None => "rejected"@,
    }
}

/// What an agent does after a command.
pub open spec fn exec_next(status: Seq<char>) -> Seq<char> {
    if status == "sent"@ {
        "Use screen_read to observe the command result before taking another action."@
    } else if status == "needs_approval"@ {
        "Do not call exec again for this command. Ask the human to approve the pending request in the Vida GUI, then use screen_read after they decide."@
    } else {
        "The command was not sent. Read the message, inspect the session and host Agent trust in the Vida GUI, and revise the plan."@
    }
}

/// The time of a member.
pub open spec fn time_at(value: JsonModel, key: Seq<char>) -> Option<int> {
    match value.member(key) {
        Some(v) => v.signed(),
        None => None,
    }
}

/// The number, as it is.
pub open spec fn opt_int(n: Option<i64>) -> Option<int> {
    match n {
        Some(x) => Some(x as int),
        None => None,
    }
}

/// What an agent is told of a command: of the reply, only what is named here.
pub open spec fn exec_report(session_id: Seq<char>, value: JsonModel) -> ExecModel {
    ExecModel {
        session_id,
        status: exec_status(value),
        approval_id: value.text_at("approval_id"@),
        expires_at: time_at(value, "expires_at"@),
        reasons: listed_in(value.member("reasons"@), "reason"@),
        matched_rules: listed_in(value.member("matched_rules"@), "rule_id"@),
        reason: value.text_at("reason"@),
        message: value.text_at("message"@),
        next_action: exec_next(exec_status(value)),
    }
}

/// What an agent is told of a command.
pub fn decode_exec_output(session_id: String, value: &Json) -> (res: ExecOutput)
    ensures
        res@ == exec_report(session_id@, value@),
        known_status(res@.status),
{
    let status = match value.string_at("status") {
        Some(status) => if strings::text_eq(status.as_str(), "sent") || strings::text_eq(
            status.as_str(),
            "needs_approval",
        ) {
            status
        } else {
            "rejected".to_string()
        },
        None => "rejected".to_string(),
    };
    let expires_at: Option<i64> = match value.get("expires_at") {
        Some(v) => v.as_i64(),
        None => None,
    };
    let next_action = if strings::text_eq(status.as_str(), "sent") {
        "Use screen_read to observe the command result before taking another action.".to_string()
    } else if strings::text_eq(status.as_str(), "needs_approval") {
        "Do not call exec again for this command. Ask the human to approve the pending request in the Vida GUI, then use screen_read after they decide.".to_string()
    } else {
        "The command was not sent. Read the message, inspect the session and host Agent trust in the Vida GUI, and revise the plan.".to_string()
    };
    ExecOutput {
        session_id,
        status,
        approval_id: value.string_at("approval_id"),
        expires_at,
        reasons: string_list(value.get("reasons"), "reason"),
        matched_rules: string_list(value.get("matched_rules"), "rule_id"),
        reason: value.string_at("reason"),
        message: value.string_at("message"),
        next_action,
    }
}

/// An agent is not told the command again: two replies that differ in the
/// member `command` alone are reported alike.
pub proof fn law_command_is_not_echoed(session_id: Seq<char>, a: JsonModel, b: JsonModel)
    requires
        forall|key: Seq<char>| key != "command"@ ==> a.member(key) == #[trigger] b.member(key),
    ensures
        exec_report(session_id, a) == exec_report(session_id, b),
{
    reveal_strlit("command");
    reveal_strlit("status");
    reveal_strlit("approval_id");
    reveal_strlit("expires_at");
    reveal_strlit("reasons");
    reveal_strlit("matched_rules");
    reveal_strlit("reason");
    reveal_strlit("message");
    assert("status"@[0] == 's' && "command"@[0] == 'c');
    assert("approval_id"@[0] == 'a' && "expires_at"@[0] == 'e');
    assert("reasons"@[0] == 'r' && "matched_rules"@[0] == 'm');
    assert("reason"@[0] == 'r' && "message"@[0] == 'm');
}

/// Lines without the blanks at their ends.
pub open spec fn unpadded(lines: Seq<Seq<char>>) -> Seq<Seq<char>> {
    Seq::new(lines.len(), |i: int| strings::without_end(lines[i], ' '))
}

/// Lines without the blanks that fill them up to the width of the terminal.
pub fn without_padding(lines: &Vec<String>) -> (res: Vec<String>)
    ensures
        strings::texts(res@) == unpadded(strings::texts(lines@)),
{
    let mut out: Vec<String> = Vec::new();
    let mut i: usize = 0;
    while i < lines.len()
        invariant
            i <= lines@.len(),
            out@.len() == i,
            forall|k: int|
                0 <= k < i ==> (#[trigger] out@[k])@ == strings::without_end(lines@[k]@, ' '),
        decreases lines@.len() - i,
    {
        out.push(strings::trim_end_char(lines[i].as_str(), ' '));
        i += 1;
    }
    proof {
        assert(strings::texts(out@) =~= unpadded(strings::texts(lines@)));
    }
    out
}

/// What a terminal shows, as one text.
pub fn screen_text(lines: &Vec<String>) -> (res: String)
    ensures
        res@ == strings::joined(unpadded(strings::texts(lines@)), "\n"@),
{
    let trimmed = without_padding(lines);
    strings::join(&trimmed, "\n")
}

/// What an agent does after a host was prepared.
pub fn host_prepared_next() -> (res: String)
    ensures
        res@
            == "Ask the human to review the prefilled Vida add-host editor, choose authentication, and click Save. The host does not exist until the human saves it."@,
{
    "Ask the human to review the prefilled Vida add-host editor, choose authentication, and click Save. The host does not exist until the human saves it.".to_string()
}

/// What an agent is told of a host that was prepared.
#[derive(Debug)]
pub struct PreparedHost {
    pub draft_id: String,
    /// Always `awaiting_human`: nothing is saved yet.
    pub status: String,
    pub next_action: String,
}

/// What an agent is told of the host that was prepared in a draft.
pub fn prepared_host(draft_id: String) -> (res: PreparedHost)
    ensures
        res.draft_id@ == draft_id@,
        res.status@ == "awaiting_human"@,
        res.next_action@
            == "Ask the human to review the prefilled Vida add-host editor, choose authentication, and click Save. The host does not exist until the human saves it."@,
{
    PreparedHost {
        draft_id,
        status: "awaiting_human".to_string(),
        next_action: host_prepared_next(),
    }
}

/// What an agent does after a session was opened.
pub fn session_opened_next(session_id: &str) -> (res: String)
    ensures
        res@ == "Call session_list to confirm the target, then screen_read on session "@
            + session_id@ + " before sending any command."@,
{
    strings::concat3(
        "Call session_list to confirm the target, then screen_read on session ",
        session_id,
        " before sending any command.",
    )
}

// ---------------------------------------------------------------------------
// Resources
// ---------------------------------------------------------------------------

/// The address of the notes of a host.
pub open spec fn notes_address(host_id: Seq<char>) -> Seq<char> {
    "vida://host/"@ + host_id + "/notes"@
}

/// The host whose notes an address names.
pub open spec fn host_of_address(uri: Seq<char>) -> Option<Seq<char>> {
    match strings::stripped(uri, "vida://host/"@) {
        Some(rest) => match strings::stripped_end(rest, "/notes"@) {
            Some(id) => if id.len() > 0 && !id.contains('/') {
                Some(id)
            } else {
                None
            },
            None => None,
        },
        None => None,
    }
}

/// The address of the notes of a host.
pub fn notes_uri(host_id: &str) -> (res: String)
    ensures
        res@ == notes_address(host_id@),
{
    strings::concat3("vida://host/", host_id, "/notes")
}

/// The name of the notes of a host.
pub fn notes_name(host_name: &str) -> (res: String)
    ensures
        res@ == host_name@ + " operations notes"@,
{
    strings::concat(host_name, " operations notes")
}

/// The title of the notes of a host.
pub fn notes_title(host_name: &str) -> (res: String)
    ensures
        res@ == host_name@ + " · Operations notes"@,
{
    strings::concat(host_name, " · Operations notes")
}

/// The host whose notes an address names.
pub fn host_of_uri(uri: &str) -> (res: Option<String>)
    ensures
        strings::opt_text(res) == host_of_address(uri@),
{
    match strings::strip_prefix(uri, "vida://host/") {
        Some(rest) => match strings::strip_suffix(rest.as_str(), "/notes") {
            Some(id) => if !id.as_str().is_empty() && !strings::has_char(id.as_str(), '/') {
                Some(id)
            } else {
                None
            },
            None => None,
        },
        None => None,
    }
}

/// The address of the notes of a host names that host. An id has no slash.
pub proof fn law_address_names_its_host(host_id: Seq<char>)
    requires
        host_id.len() > 0,
        !host_id.contains('/'),
    ensures
        host_of_address(notes_address(host_id)) == Some(host_id),
{
    let head = "vida://host/"@;
    let tail = "/notes"@;
    let uri = notes_address(host_id);
    assert(uri.subrange(0, head.len() as int) =~= head);
    let rest = uri.subrange(head.len() as int, uri.len() as int);
    assert(rest =~= host_id + tail);
    assert(strings::stripped(uri, head) == Some(rest));
    assert(rest.subrange(host_id.len() as int, rest.len() as int) =~= tail);
    assert(rest.take(host_id.len() as int) =~= host_id);
    assert(strings::stripped_end(rest, tail) == Some(host_id));
}

/// A reply is what the request comes to, whichever try it came from, and every
/// failure ends with what the daemon or the connection said.
pub proof fn law_reply_is_the_result(kind: RequestKind, value: JsonModel, e: Seq<char>)
    ensures
        next_action(kind, StageModel::Sending, EventModel::Replied(value)) == ActionModel::Succeed(
            value,
        ),
        next_action(kind, StageModel::Resending, EventModel::Replied(value))
            == ActionModel::Succeed(value),
        next_action(kind, StageModel::Connecting, EventModel::Connected) == ActionModel::Send(
            StageModel::Sending,
        ),
        kind is Read || kind is OpenSession ==> next_action(
            kind,
            StageModel::Sending,
            EventModel::Refused(e),
        ) == ActionModel::Reconnect(StageModel::Reconnecting(e)),
        kind is Exec || kind is PrepareHost || kind is UpdateNotes ==> next_action(
            kind,
            StageModel::Sending,
            EventModel::Refused(e),
        ) is DropAndFail,
        next_action(kind, StageModel::Reconnecting(e), EventModel::Connected) == ActionModel::Send(
            StageModel::Resending,
        ),
        next_action(kind, StageModel::Resending, EventModel::Refused(e)) is Fail,
        next_action(kind, StageModel::Connecting, EventModel::ConnectFailed(e)) is Fail,
        begun(true) == ActionModel::Send(StageModel::Sending),
        begun(false) == ActionModel::Connect(StageModel::Connecting),
{
}

/// What is said of a failure ends with what was said of it to the bridge, and
/// two kinds of request that are not sent again are told apart.
pub proof fn law_failures_tell_their_cause(kind: RequestKind, first: Seq<char>, e: Seq<char>)
    ensures
        connect_error(e).len() >= e.len() && connect_error(e).skip(connect_error(e).len() - e.len())
            == e,
        unconfirmed(kind, e).skip(unconfirmed(kind, e).len() - e.len()) == e,
        second_error(kind, e).skip(second_error(kind, e).len() - e.len()) == e,
        reconnect_error(kind, first, e).skip(reconnect_error(kind, first, e).len() - e.len()) == e,
{
    assert(connect_error(e).skip(connect_error(e).len() - e.len()) =~= e);
    assert(unconfirmed(kind, e).skip(unconfirmed(kind, e).len() - e.len()) =~= e);
    assert(second_error(kind, e).skip(second_error(kind, e).len() - e.len()) =~= e);
    let all = reconnect_error(kind, first, e);
    assert(all.skip(all.len() - e.len()) =~= e);
}

/// Of a list an item that is a text gives it, an object gives the text under
/// the key, and anything else gives nothing; the order stays.
pub proof fn law_listed_texts(items: Seq<JsonModel>, item: JsonModel, key: Seq<char>)
    ensures
        listed(Seq::empty(), key).len() == 0,
        item matches JsonModel::Str(s) ==> listed(items.push(item), key) == listed(
            items,
            key,
        ).push(s),
        item is Object && item.at(key) is Str ==> listed(items.push(item), key) == listed(
            items,
            key,
        ).push(item.at(key)->Str_0),
        !(item is Str) && !(item.at(key) is Str) ==> listed(items.push(item), key) == listed(
            items,
            key,
        ),
{
    assert(items.push(item).drop_last() =~= items);
}

/// A command that was sent, that waits for approval or that was rejected is
/// told as such, with what to do next; a reply with any other word counts as a
/// rejection. What else the reply says is handed on as it is.
pub proof fn law_command_report(session_id: Seq<char>, value: JsonModel)
    ensures
        ({
            let r = exec_report(session_id, value);
            let said = value.text_at("status"@);
            &&& r.session_id == session_id
            &&& said == Some("sent"@) ==> r.status == "sent"@ && r.next_action
                == "Use screen_read to observe the command result before taking another action."@
            &&& said == Some("needs_approval"@) ==> r.status == "needs_approval"@
                && r.next_action
                == "Do not call exec again for this command. Ask the human to approve the pending request in the Vida GUI, then use screen_read after they decide."@
            &&& said != Some("sent"@) && said != Some("needs_approval"@) ==> r.status
                == "rejected"@ && r.next_action
                == "The command was not sent. Read the message, inspect the session and host Agent trust in the Vida GUI, and revise the plan."@
            &&& r.approval_id == value.text_at("approval_id"@)
            &&& r.reason == value.text_at("reason"@)
            &&& r.message == value.text_at("message"@)
            &&& r.expires_at == value.at("expires_at"@).signed()
            &&& value.at("reasons"@) matches JsonModel::Array(items) ==> r.reasons == listed(
                items,
                "reason"@,
            )
            &&& value.at("matched_rules"@) matches JsonModel::Array(items) ==> r.matched_rules
                == listed(items, "rule_id"@)
        }),
{
    reveal_strlit("sent");
    reveal_strlit("needs_approval");
    reveal_strlit("rejected");
    assert("sent"@.len() == 4 && "needs_approval"@.len() == 14 && "rejected"@.len() == 8);
}

/// Of each line of a screen only the blanks at its end are dropped.
pub proof fn law_screen_lines_keep_their_text(lines: Seq<Seq<char>>, i: int, k: int)
    requires
        0 <= i < lines.len(),
    ensures
        unpadded(lines).len() == lines.len(),
        ({
            let kept = unpadded(lines)[i];
            &&& kept.len() <= lines[i].len()
            &&& kept == lines[i].take(kept.len() as int)
            &&& kept.len() > 0 ==> kept.last() != ' '
            &&& kept.len() <= k < lines[i].len() ==> lines[i][k] == ' '
        }),
{
    lemma_without_end(lines[i], ' ', k);
}

proof fn lemma_without_end(s: Seq<char>, c: char, k: int)
    ensures
        strings::without_end(s, c).len() <= s.len(),
        strings::without_end(s, c) == s.take(strings::without_end(s, c).len() as int),
        strings::without_end(s, c).len() > 0 ==> strings::without_end(s, c).last() != c,
        strings::without_end(s, c).len() <= k < s.len() ==> s[k] == c,
    decreases s.len(),
{
    if s.len() > 0 && s.last() == c {
        lemma_without_end(s.drop_last(), c, k);
        let n = strings::without_end(s, c).len() as int;
        assert(s.drop_last().take(n) =~= s.take(n));
    } else {
        assert(s.take(s.len() as int) =~= s);
    }
}

} // verus!
