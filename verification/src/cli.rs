//! The command line client: what each command asks the daemon for, how a host
//! is selected, and what is printed.
use vstd::prelude::*;

use crate::json;
use crate::json::{Json, JsonModel};
use crate::model;
use crate::strings;
use crate::text;
use crate::text::{Arg, ArgModel, I18n, Lang, SpanModel, Text};

verus! {

pub const EXIT_CONNECTION: u8 = 10;

pub const EXIT_DAEMON: u8 = 11;

pub const EXIT_NOT_FOUND: u8 = 12;

pub const EXIT_AMBIGUOUS: u8 = 13;

pub const EXIT_DATA: u8 = 14;

// ---------------------------------------------------------------------------
// Data of the daemon
// ---------------------------------------------------------------------------

/// The state of the vault.
#[derive(Debug)]
pub struct VaultStatus {
    pub locked: bool,
    pub host_count: usize,
    pub revision: u64,
    pub device_id: String,
    pub vault_exists: bool,
}

/// A host, without its secrets.
#[derive(Debug)]
pub struct HostSummary {
    pub id: String,
    pub name: String,
    pub host: String,
    pub user: String,
    pub port: u16,
    pub tags: Vec<String>,
    pub group: Option<String>,
    pub color: Option<String>,
    pub auth_kind: String,
    pub notes: Option<String>,
}

/// A session.
#[derive(Debug)]
pub struct SessionInfo {
    pub session_id: String,
    pub cols: u16,
    pub rows: u16,
    pub alive: bool,
    pub exit_code: Option<u32>,
    pub foreground_process: Option<String>,
}

#[derive(Debug, Clone, Copy, PartialEq, Eq, Structural)]
pub struct CursorPos {
    pub row: u16,
    pub col: u16,
}

/// What a terminal shows.
#[derive(Debug)]
pub struct ScreenData {
    pub lines: Vec<String>,
    pub wide_cols: Vec<Vec<u16>>,
    pub cursor: CursorPos,
}

#[verifier::ext_equal]
pub struct StatusModel {
    pub locked: bool,
    pub host_count: nat,
    pub revision: nat,
    pub device_id: Seq<char>,
    pub vault_exists: bool,
}

#[verifier::ext_equal]
pub struct SummaryModel {
    pub id: Seq<char>,
    pub name: Seq<char>,
    pub host: Seq<char>,
    pub user: Seq<char>,
    pub port: u16,
    pub tags: Seq<Seq<char>>,
    pub group: Option<Seq<char>>,
    pub color: Option<Seq<char>>,
    pub auth_kind: Seq<char>,
    pub notes: Option<Seq<char>>,
}

#[verifier::ext_equal]
pub struct SessionModel {
    pub session_id: Seq<char>,
    pub cols: u16,
    pub rows: u16,
    pub alive: bool,
    pub exit_code: Option<u32>,
    pub foreground_process: Option<Seq<char>>,
}

#[verifier::ext_equal]
pub struct ScreenModel {
    pub lines: Seq<Seq<char>>,
    pub wide_cols: Seq<Seq<u16>>,
    pub cursor: CursorPos,
}

impl View for VaultStatus {
    type V = StatusModel;

    open spec fn view(&self) -> StatusModel {
        StatusModel {
            locked: self.locked,
            host_count: self.host_count as nat,
            revision: self.revision as nat,
            device_id: self.device_id@,
            vault_exists: self.vault_exists,
        }
    }
}

impl View for HostSummary {
    type V = SummaryModel;

    open spec fn view(&self) -> SummaryModel {
        SummaryModel {
            id: self.id@,
            name: self.name@,
            host: self.host@,
            user: self.user@,
            port: self.port,
            tags: strings::texts(self.tags@),
            group: strings::opt_text(self.group),
            color: strings::opt_text(self.color),
            auth_kind: self.auth_kind@,
            notes: strings::opt_text(self.notes),
        }
    }
}

impl View for SessionInfo {
    type V = SessionModel;

    open spec fn view(&self) -> SessionModel {
        SessionModel {
            session_id: self.session_id@,
            cols: self.cols,
            rows: self.rows,
            alive: self.alive,
            exit_code: self.exit_code,
            foreground_process: strings::opt_text(self.foreground_process),
        }
    }
}

/// The columns of wide characters, line by line.
pub open spec fn wide_models(rows: Seq<Vec<u16>>) -> Seq<Seq<u16>> {
    Seq::new(rows.len(), |i: int| rows[i]@)
}

impl View for ScreenData {
    type V = ScreenModel;

    open spec fn view(&self) -> ScreenModel {
        ScreenModel {
            lines: strings::texts(self.lines@),
            wide_cols: wide_models(self.wide_cols@),
            cursor: self.cursor,
        }
    }
}

/// The hosts of a list.
pub open spec fn summary_models(list: Seq<HostSummary>) -> Seq<SummaryModel> {
    Seq::new(list.len(), |i: int| list[i]@)
}

/// The sessions of a list.
pub open spec fn session_models(list: Seq<SessionInfo>) -> Seq<SessionModel> {
    Seq::new(list.len(), |i: int| list[i]@)
}

impl Clone for HostSummary {
    fn clone(&self) -> (copy: Self)
        ensures
            copy@ == self@,
    {
        HostSummary {
            id: self.id.clone(),
            name: self.name.clone(),
            host: self.host.clone(),
            user: self.user.clone(),
            port: self.port,
            tags: text::clone_strings(&self.tags),
            group: text::clone_opt_string(&self.group),
            color: text::clone_opt_string(&self.color),
            auth_kind: self.auth_kind.clone(),
            notes: text::clone_opt_string(&self.notes),
        }
    }
}

// ---------------------------------------------------------------------------
// Errors
// ---------------------------------------------------------------------------

/// Why a command failed: the exit code, a stable word for scripts, and what the
/// user is told.
#[derive(Debug)]
pub struct CliError {
    pub code: u8,
    pub kind: String,
    pub message: Text,
    pub category: Option<String>,
}

#[verifier::ext_equal]
pub struct CliErrorModel {
    pub code: u8,
    pub kind: Seq<char>,
    pub message: Seq<SpanModel>,
    pub category: Option<Seq<char>>,
}

impl View for CliError {
    type V = CliErrorModel;

    open spec fn view(&self) -> CliErrorModel {
        CliErrorModel {
            code: self.code,
            kind: self.kind@,
            message: self.message@,
            category: strings::opt_text(self.category),
        }
    }
}

impl CliError {
    /// There is no connection, or no directory for the configuration.
    pub fn connection(i18n: &I18n) -> (res: CliError)
        ensures
            res@ == (CliErrorModel {
                code: 10,
                kind: "connection_error"@,
                message: text::tr(i18n.lang, "cli_error_connection"@),
                category: None,
            }),
    {
        CliError {
            code: EXIT_CONNECTION,
            kind: "connection_error".to_string(),
            message: i18n.tr("cli_error_connection"),
            category: None,
        }
    }

    /// The reply of the daemon could not be read.
    pub fn data(error: String, i18n: &I18n) -> (res: CliError)
        ensures
            res@ == (CliErrorModel {
                code: 14,
                kind: "invalid_daemon_response"@,
                message: text::trf1(i18n.lang, "cli_error_invalid_data"@, error@),
                category: None,
            }),
    {
        CliError {
            code: EXIT_DATA,
            kind: "invalid_daemon_response".to_string(),
            message: i18n.trf1("cli_error_invalid_data", error),
            category: None,
        }
    }

    /// An error of the client itself.
    pub fn local(code: u8, kind: &str, message: Text) -> (res: CliError)
        ensures
            res@ == (CliErrorModel { code, kind: kind@, message: message@, category: None }),
    {
        CliError { code, kind: kind.to_string(), message, category: None }
    }

    /// The daemon refused a request.
    pub fn daemon(message: String, category: Option<String>) -> (res: CliError)
        ensures
            res@ == (CliErrorModel {
                code: 11,
                kind: "daemon_error"@,
                message: text::plain(message@),
                category: strings::opt_text(category),
            }),
    {
        CliError {
            code: EXIT_DAEMON,
            kind: "daemon_error".to_string(),
            message: Text::plain(message),
            category,
        }
    }
}

// ---------------------------------------------------------------------------
// Selecting a host
// ---------------------------------------------------------------------------

/// Hosts by name.
pub open spec fn with_name(name: Seq<char>) -> spec_fn(SummaryModel) -> bool {
    |h: SummaryModel| h.name == name
}

/// Hosts by id.
pub open spec fn with_id(id: Seq<char>) -> spec_fn(SummaryModel) -> bool {
    |h: SummaryModel| h.id == id
}

/// The host that a word selects: the first one with that id, or else the only
/// one with that name.
pub open spec fn selection(hosts: Seq<SummaryModel>, selector: Seq<char>, lang: Lang) -> Result<
    SummaryModel,
    CliErrorModel,
> {
    match model::first_match(hosts, with_id(selector)) {
        Some(host) => Ok(host),
        None => {
            let named = hosts.filter(with_name(selector));
            if named.len() == 0 {
                Err(
                    CliErrorModel {
                        code: 12,
                        kind: "host_not_found"@,
                        message: text::trf1(lang, "cli_error_host_not_found"@, selector),
                        category: None,
                    },
                )
            } else if named.len() == 1 {
                Ok(named[0])
            } else {
                Err(
                    CliErrorModel {
                        code: 13,
                        kind: "host_ambiguous"@,
                        message: text::trf1(lang, "cli_error_host_ambiguous"@, selector),
                        category: None,
                    },
                )
            }
        },
    }
}

/// The result of selecting a host.
pub open spec fn selection_model(res: Result<HostSummary, CliError>) -> Result<
    SummaryModel,
    CliErrorModel,
> {
    match res {
        Ok(host) => Ok(host@),
        Err(e) => Err(e@),
    }
}

/// The host that a word selects.
pub fn select_host(hosts: &Vec<HostSummary>, selector: &str, i18n: &I18n) -> (res: Result<
    HostSummary,
    CliError,
>)
    ensures
        selection_model(res) == selection(summary_models(hosts@), selector@, i18n.lang),
{
    let ghost all = summary_models(hosts@);
    let ghost by_id = with_id(selector@);
    let ghost by_name = with_name(selector@);
    let mut i: usize = 0;
    while i < hosts.len()
        invariant
            i <= hosts@.len(),
            all == summary_models(hosts@),
            by_id == with_id(selector@),
            forall|k: int| 0 <= k < i ==> !by_id(#[trigger] all[k]),
        decreases hosts@.len() - i,
    {
        if strings::text_eq(hosts[i].id.as_str(), selector) {
            proof {
                assert(by_id(all[i as int]));
                model::lemma_first_index_some(all, by_id, i as int);
            }
            return Ok(hosts[i].clone());
        }
        proof {
            assert(!by_id(all[i as int]));
        }
        i += 1;
    }
    proof {
        model::lemma_first_index_none(all, by_id);
    }
    let mut first: Option<usize> = None;
    let mut j: usize = 0;
    proof {
        reveal(Seq::filter);
        assert(all.take(0).filter(by_name) =~= Seq::<SummaryModel>::empty());
    }
    while j < hosts.len()
        invariant
            j <= hosts@.len(),
            all == summary_models(hosts@),
            by_name == with_name(selector@),
            match first {
                None => all.take(j as int).filter(by_name).len() == 0,
                Some(at) => at < hosts@.len() && all.take(j as int).filter(by_name) == seq![
                    hosts@[at as int]@,
                ],
            },
            selection(all, selector@, i18n.lang) == (if all.filter(by_name).len() == 0 {
                Err(
                    CliErrorModel {
                        code: 12,
                        kind: "host_not_found"@,
                        message: text::trf1(i18n.lang, "cli_error_host_not_found"@, selector@),
                        category: None,
                    },
                )
            } else if all.filter(by_name).len() == 1 {
                Ok(all.filter(by_name)[0])
            } else {
                Err(
                    CliErrorModel {
                        code: 13,
                        kind: "host_ambiguous"@,
                        message: text::trf1(i18n.lang, "cli_error_host_ambiguous"@, selector@),
                        category: None,
                    },
                )
            }),
        decreases hosts@.len() - j,
    {
        proof {
            assert(all.take(j + 1) =~= all.take(j as int).push(all[j as int]));
            model::lemma_filter_push(all.take(j as int), all[j as int], by_name);
        }
        if strings::text_eq(hosts[j].name.as_str(), selector) {
            proof {
                assert(by_name(all[j as int]));
            }
            match first {
                None => {
                    proof {
                        assert(all.take(j + 1).filter(by_name) =~= seq![hosts@[j as int]@]);
                    }
                    first = Some(j);
                },
                Some(_) => {
                    proof {
                        assert(all.take(j + 1).filter(by_name).len() == 2);
                        lemma_filter_grows(all, j + 1, by_name);
                    }
                    return Err(
                        CliError::local(
                            EXIT_AMBIGUOUS,
                            "host_ambiguous",
                            i18n.trf1("cli_error_host_ambiguous", selector.to_string()),
                        ),
                    );
                },
            }
        } else {
            proof {
                assert(!by_name(all[j as int]));
            }
        }
        j += 1;
    }
    proof {
        assert(all.take(j as int) =~= all);
    }
    match first {
        Some(at) => Ok(hosts[at].clone()),
        None => Err(
            CliError::local(
                EXIT_NOT_FOUND,
                "host_not_found",
                i18n.trf1("cli_error_host_not_found", selector.to_string()),
            ),
        ),
    }
}

proof fn lemma_filter_grows(s: Seq<SummaryModel>, i: int, p: spec_fn(SummaryModel) -> bool)
    requires
        0 <= i <= s.len(),
    ensures
        s.take(i).filter(p).len() <= s.filter(p).len(),
    decreases s.len() - i,
{
    if i < s.len() {
        assert(s.take(i + 1) =~= s.take(i).push(s[i]));
        model::lemma_filter_push(s.take(i), s[i], p);
        lemma_filter_grows(s, i + 1, p);
    } else {
        assert(s.take(i) =~= s);
    }
}

// ---------------------------------------------------------------------------
// Commands
// ---------------------------------------------------------------------------

/// A command.
#[derive(Debug)]
pub enum Command {
    Doctor,
    Status,
    HostList,
    HostShow { host: String },
    SessionList,
    SessionScreen { session_id: String },
}

/// What the daemon is asked for.
#[derive(Debug, PartialEq)]
pub enum Ask {
    VaultStatus,
    Hosts,
    Sessions,
    Screen(String),
}

/// What the daemon answered.
#[derive(Debug)]
pub enum Answer {
    Status(VaultStatus),
    Hosts(Vec<HostSummary>),
    Sessions(Vec<SessionInfo>),
    Screen(ScreenData),
}

/// What a command gives.
#[derive(Debug)]
pub enum Output {
    Doctor { config_dir: String, status: VaultStatus },
    Status(VaultStatus),
    Hosts(Vec<HostSummary>),
    Host(HostSummary),
    Sessions(Vec<SessionInfo>),
    Screen(ScreenData),
}

#[verifier::ext_equal]
pub enum OutputModel {
    Doctor { config_dir: Seq<char>, status: StatusModel },
    Status(StatusModel),
    Hosts(Seq<SummaryModel>),
    Host(SummaryModel),
    Sessions(Seq<SessionModel>),
    Screen(ScreenModel),
}

impl View for Output {
    type V = OutputModel;

    open spec fn view(&self) -> OutputModel {
        match self {
            Output::Doctor { config_dir, status } => OutputModel::Doctor {
                config_dir: config_dir@,
                status: status@,
            },
            Output::Status(status) => OutputModel::Status(status@),
            Output::Hosts(hosts) => OutputModel::Hosts(summary_models(hosts@)),
            Output::Host(host) => OutputModel::Host(host@),
            Output::Sessions(sessions) => OutputModel::Sessions(session_models(sessions@)),
            Output::Screen(screen) => OutputModel::Screen(screen@),
        }
    }
}

/// The answer is one to the command.
pub open spec fn answers(command: Command, answer: Answer) -> bool {
    match command {
        Command::Doctor | Command::Status => answer is Status,
        Command::HostList | Command::HostShow { .. } => answer is Hosts,
        Command::SessionList => answer is Sessions,
        Command::SessionScreen { .. } => answer is Screen,
    }
}

/// What a command asks the daemon for.
pub fn ask(command: &Command) -> (res: Ask)
    ensures
        match command {
            Command::Doctor | Command::Status => res is VaultStatus,
            Command::HostList | Command::HostShow { .. } => res is Hosts,
            Command::SessionList => res is Sessions,
            Command::SessionScreen { session_id } => res matches Ask::Screen(id) && id@
                == session_id@,
        },
{
    match command {
        Command::Doctor => Ask::VaultStatus,
        Command::Status => Ask::VaultStatus,
        Command::HostList => Ask::Hosts,
        Command::HostShow { .. } => Ask::Hosts,
        Command::SessionList => Ask::Sessions,
        Command::SessionScreen { session_id } => Ask::Screen(session_id.clone()),
    }
}

/// What a command comes to, by the answer and by where the configuration is
/// kept; `None` where that is not known.
pub open spec fn conclusion(
    command: Command,
    answer: Answer,
    config_dir: Option<Seq<char>>,
    lang: Lang,
) -> Result<OutputModel, CliErrorModel> {
    match (command, answer) {
        (Command::Doctor, Answer::Status(status)) => match config_dir {
            Some(config_dir) => Ok(OutputModel::Doctor { config_dir, status: status@ }),
            None => Err(
                CliErrorModel {
                    code: 10,
                    kind: "connection_error"@,
                    message: text::tr(lang, "cli_error_connection"@),
                    category: None,
                },
            ),
        },
        (Command::HostShow { host }, Answer::Hosts(hosts)) => match selection(
            summary_models(hosts@),
            host@,
            lang,
        ) {
            Ok(h) => Ok(OutputModel::Host(h)),
            Err(e) => Err(e),
        },
        (_, Answer::Status(status)) => Ok(OutputModel::Status(status@)),
        (_, Answer::Hosts(hosts)) => Ok(OutputModel::Hosts(summary_models(hosts@))),
        (_, Answer::Sessions(sessions)) => Ok(
            OutputModel::Sessions(session_models(sessions@)),
        ),
        (_, Answer::Screen(screen)) => Ok(OutputModel::Screen(screen@)),
    }
}

/// The result of a command.
pub open spec fn output_model(res: Result<Output, CliError>) -> Result<OutputModel, CliErrorModel> {
    match res {
        Ok(output) => Ok(output@),
        Err(e) => Err(e@),
    }
}

/// What a command comes to.
pub fn conclude(command: &Command, answer: Answer, config_dir: Option<String>, i18n: &I18n) -> (res:
    Result<Output, CliError>)
    requires
        answers(*command, answer),
    ensures
        output_model(res) == conclusion(
            *command,
            answer,
            strings::opt_text(config_dir),
            i18n.lang,
        ),
{
    match answer {
        Answer::Status(status) => match command {
            Command::Doctor => match config_dir {
                Some(config_dir) => Ok(Output::Doctor { config_dir, status }),
                None => Err(CliError::connection(i18n)),
            },
            _ => Ok(Output::Status(status)),
        },
        Answer::Hosts(hosts) => match command {
            Command::HostShow { host } => match select_host(&hosts, host.as_str(), i18n) {
                Ok(selected) => Ok(Output::Host(selected)),
                Err(e) => Err(e),
            },
            _ => Ok(Output::Hosts(hosts)),
        },
        Answer::Sessions(sessions) => Ok(Output::Sessions(sessions)),
        Answer::Screen(screen) => Ok(Output::Screen(screen)),
    }
}

// ---------------------------------------------------------------------------
// Output for scripts
// ---------------------------------------------------------------------------

impl StatusModel {
    pub open spec fn json(self) -> JsonModel {
        JsonModel::Object(
            seq![
                ("device_id"@, JsonModel::Str(self.device_id)),
                ("host_count"@, JsonModel::Unsigned(self.host_count)),
                ("locked"@, JsonModel::Bool(self.locked)),
                ("revision"@, JsonModel::Unsigned(self.revision)),
                ("vault_exists"@, JsonModel::Bool(self.vault_exists)),
            ],
        )
    }
}

impl SummaryModel {
    pub open spec fn json(self) -> JsonModel {
        JsonModel::Object(
            seq![
                ("auth_kind"@, JsonModel::Str(self.auth_kind)),
                ("color"@, json::text_or_null(self.color)),
                ("group"@, json::text_or_null(self.group)),
                ("host"@, JsonModel::Str(self.host)),
                ("id"@, JsonModel::Str(self.id)),
                ("name"@, JsonModel::Str(self.name)),
                ("notes"@, json::text_or_null(self.notes)),
                ("port"@, JsonModel::Unsigned(self.port as nat)),
                ("tags"@, json::text_array(self.tags)),
                ("user"@, JsonModel::Str(self.user)),
            ],
        )
    }
}

impl SessionModel {
    pub open spec fn json(self) -> JsonModel {
        JsonModel::Object(
            seq![
                ("alive"@, JsonModel::Bool(self.alive)),
                ("cols"@, JsonModel::Unsigned(self.cols as nat)),
                (
                    "exit_code"@,
                    match self.exit_code {
                        Some(code) => JsonModel::Unsigned(code as nat),
                        None => JsonModel::Null,
                    },
                ),
                ("foreground_process"@, json::text_or_null(self.foreground_process)),
                ("rows"@, JsonModel::Unsigned(self.rows as nat)),
                ("session_id"@, JsonModel::Str(self.session_id)),
            ],
        )
    }
}

/// The array of numbers.
pub open spec fn number_array(list: Seq<u16>) -> JsonModel {
    JsonModel::Array(Seq::new(list.len(), |i: int| JsonModel::Unsigned(list[i] as nat)))
}

impl ScreenModel {
    pub open spec fn json(self) -> JsonModel {
        JsonModel::Object(
            seq![
                (
                    "cursor"@,
                    JsonModel::Object(
                        seq![
                            ("col"@, JsonModel::Unsigned(self.cursor.col as nat)),
                            ("row"@, JsonModel::Unsigned(self.cursor.row as nat)),
                        ],
                    ),
                ),
                ("lines"@, json::text_array(self.lines)),
                (
                    "wide_cols"@,
                    JsonModel::Array(
                        Seq::new(
                            self.wide_cols.len(),
                            |i: int| number_array(self.wide_cols[i]),
                        ),
                    ),
                ),
            ],
        )
    }
}

impl OutputModel {
    pub open spec fn json(self) -> JsonModel {
        match self {
            OutputModel::Doctor { config_dir, status } => JsonModel::Object(
                seq![
                    ("config_dir"@, JsonModel::Str(config_dir)),
                    ("daemon"@, JsonModel::Str("reachable"@)),
                    ("vault"@, status.json()),
                ],
            ),
            OutputModel::Status(status) => status.json(),
            OutputModel::Hosts(hosts) => JsonModel::Array(
                Seq::new(hosts.len(), |i: int| hosts[i].json()),
            ),
            OutputModel::Host(host) => host.json(),
            OutputModel::Sessions(sessions) => JsonModel::Array(
                Seq::new(sessions.len(), |i: int| sessions[i].json()),
            ),
            OutputModel::Screen(screen) => screen.json(),
        }
    }
}

impl VaultStatus {
    fn to_json(&self) -> (res: Json)
        ensures
            res@ == self@.json(),
    {
        let mut members: Vec<(String, Json)> = Vec::new();
        members.push(("device_id".to_string(), Json::Str(self.device_id.clone())));
        members.push(("host_count".to_string(), Json::Unsigned(self.host_count as u64)));
        members.push(("locked".to_string(), Json::Bool(self.locked)));
        members.push(("revision".to_string(), Json::Unsigned(self.revision)));
        members.push(("vault_exists".to_string(), Json::Bool(self.vault_exists)));
        proof {
            json::lemma_object(members);
            assert(json::member_models(members@) =~= self@.json()->Object_0);
        }
        Json::Object(members)
    }
}

impl HostSummary {
    fn to_json(&self) -> (res: Json)
        ensures
            res@ == self@.json(),
    {
        let mut members: Vec<(String, Json)> = Vec::new();
        members.push(("auth_kind".to_string(), Json::Str(self.auth_kind.clone())));
        members.push(
            ("color".to_string(), json::opt_text_json(text::clone_opt_string(&self.color))),
        );
        members.push(
            ("group".to_string(), json::opt_text_json(text::clone_opt_string(&self.group))),
        );
        members.push(("host".to_string(), Json::Str(self.host.clone())));
        members.push(("id".to_string(), Json::Str(self.id.clone())));
        members.push(("name".to_string(), Json::Str(self.name.clone())));
        members.push(
            ("notes".to_string(), json::opt_text_json(text::clone_opt_string(&self.notes))),
        );
        members.push(("port".to_string(), Json::Unsigned(self.port as u64)));
        members.push(("tags".to_string(), json::texts_json(&self.tags)));
        members.push(("user".to_string(), Json::Str(self.user.clone())));
        proof {
            json::lemma_object(members);
            assert(json::member_models(members@) =~= self@.json()->Object_0);
        }
        Json::Object(members)
    }
}

impl SessionInfo {
    fn to_json(&self) -> (res: Json)
        ensures
            res@ == self@.json(),
    {
        let exit_code = match self.exit_code {
            Some(code) => Json::Unsigned(code as u64),
            None => Json::Null,
        };
        let mut members: Vec<(String, Json)> = Vec::new();
        members.push(("alive".to_string(), Json::Bool(self.alive)));
        members.push(("cols".to_string(), Json::Unsigned(self.cols as u64)));
        members.push(("exit_code".to_string(), exit_code));
        members.push(
            (
                "foreground_process".to_string(),
                json::opt_text_json(text::clone_opt_string(&self.foreground_process)),
            ),
        );
        members.push(("rows".to_string(), Json::Unsigned(self.rows as u64)));
        members.push(("session_id".to_string(), Json::Str(self.session_id.clone())));
        proof {
            json::lemma_object(members);
            assert(json::member_models(members@) =~= self@.json()->Object_0);
        }
        Json::Object(members)
    }
}

fn numbers_json(list: &Vec<u16>) -> (res: Json)
    ensures
        res@ == number_array(list@),
{
    let mut items: Vec<Json> = Vec::new();
    let mut i: usize = 0;
    while i < list.len()
        invariant
            i <= list@.len(),
            items@.len() == i,
            forall|k: int|
                0 <= k < i ==> (#[trigger] items@[k])@ == JsonModel::Unsigned(list@[k] as nat),
        decreases list@.len() - i,
    {
        items.push(Json::Unsigned(list[i] as u64));
        i += 1;
    }
    proof {
        json::lemma_array(items);
        assert(json::models(items@) =~= number_array(list@)->Array_0);
    }
    Json::Array(items)
}

impl ScreenData {
    fn to_json(&self) -> (res: Json)
        ensures
            res@ == self@.json(),
    {
        let mut cursor: Vec<(String, Json)> = Vec::new();
        cursor.push(("col".to_string(), Json::Unsigned(self.cursor.col as u64)));
        cursor.push(("row".to_string(), Json::Unsigned(self.cursor.row as u64)));
        let ghost cursor_members = cursor;
        let mut wide: Vec<Json> = Vec::new();
        let mut i: usize = 0;
        while i < self.wide_cols.len()
            invariant
                i <= self.wide_cols@.len(),
                wide@.len() == i,
                forall|k: int|
                    0 <= k < i ==> (#[trigger] wide@[k])@ == number_array(self.wide_cols@[k]@),
            decreases self.wide_cols@.len() - i,
        {
            wide.push(numbers_json(&self.wide_cols[i]));
            i += 1;
        }
        let ghost wide_items = wide;
        let mut members: Vec<(String, Json)> = Vec::new();
        members.push(("cursor".to_string(), Json::Object(cursor)));
        members.push(("lines".to_string(), json::texts_json(&self.lines)));
        members.push(("wide_cols".to_string(), Json::Array(wide)));
        proof {
            let wanted = self@.json()->Object_0;
            json::lemma_object(cursor_members);
            assert(json::member_models(cursor_members@) =~= wanted[0].1->Object_0);
            json::lemma_array(wide_items);
            assert(json::models(wide_items@) =~= wanted[2].1->Array_0);
            json::lemma_object(members);
            assert(json::member_models(members@) =~= wanted);
        }
        Json::Object(members)
    }
}

fn hosts_json(list: &Vec<HostSummary>) -> (res: Json)
    ensures
        res@ == OutputModel::Hosts(summary_models(list@)).json(),
{
    let mut items: Vec<Json> = Vec::new();
    let mut i: usize = 0;
    while i < list.len()
        invariant
            i <= list@.len(),
            items@.len() == i,
            forall|k: int| 0 <= k < i ==> (#[trigger] items@[k])@ == list@[k]@.json(),
        decreases list@.len() - i,
    {
        items.push(list[i].to_json());
        i += 1;
    }
    proof {
        json::lemma_array(items);
        assert(json::models(items@) =~= OutputModel::Hosts(
            summary_models(list@),
        ).json()->Array_0);
    }
    Json::Array(items)
}

fn sessions_json(list: &Vec<SessionInfo>) -> (res: Json)
    ensures
        res@ == OutputModel::Sessions(session_models(list@)).json(),
{
    let mut items: Vec<Json> = Vec::new();
    let mut i: usize = 0;
    while i < list.len()
        invariant
            i <= list@.len(),
            items@.len() == i,
            forall|k: int| 0 <= k < i ==> (#[trigger] items@[k])@ == list@[k]@.json(),
        decreases list@.len() - i,
    {
        items.push(list[i].to_json());
        i += 1;
    }
    proof {
        json::lemma_array(items);
        assert(json::models(items@) =~= OutputModel::Sessions(
            session_models(list@),
        ).json()->Array_0);
    }
    Json::Array(items)
}

impl Output {
    /// The data, for scripts.
    pub fn json_value(&self) -> (res: Json)
        ensures
            res@ == self@.json(),
    {
        match self {
            Output::Doctor { config_dir, status } => {
                let mut members: Vec<(String, Json)> = Vec::new();
                members.push(("config_dir".to_string(), Json::Str(config_dir.clone())));
                members.push(("daemon".to_string(), Json::Str("reachable".to_string())));
                members.push(("vault".to_string(), status.to_json()));
                proof {
                    json::lemma_object(members);
                    assert(json::member_models(members@) =~= self@.json()->Object_0);
                }
                Json::Object(members)
            },
            Output::Status(status) => status.to_json(),
            Output::Hosts(hosts) => hosts_json(hosts),
            Output::Host(host) => host.to_json(),
            Output::Sessions(sessions) => sessions_json(sessions),
            Output::Screen(screen) => screen.to_json(),
        }
    }
}

/// What scripts get of a command that succeeded.
pub open spec fn success(data: JsonModel) -> JsonModel {
    JsonModel::Object(seq![("data"@, data), ("ok"@, JsonModel::Bool(true))])
}

/// What scripts get of a command that failed.
pub open spec fn failure(error: CliErrorModel, message: Seq<char>) -> JsonModel {
    JsonModel::Object(
        seq![
            (
                "error"@,
                JsonModel::Object(
                    seq![
                        ("category"@, json::text_or_null(error.category)),
                        ("exit_code"@, JsonModel::Unsigned(error.code as nat)),
                        ("kind"@, JsonModel::Str(error.kind)),
                        ("message"@, JsonModel::Str(message)),
                    ],
                ),
            ),
            ("ok"@, JsonModel::Bool(false)),
        ],
    )
}

/// What scripts get of a command that succeeded.
pub fn success_envelope(output: &Output) -> (res: Json)
    ensures
        res@ == success(output@.json()),
{
    let mut members: Vec<(String, Json)> = Vec::new();
    members.push(("data".to_string(), output.json_value()));
    members.push(("ok".to_string(), Json::Bool(true)));
    proof {
        json::lemma_object(members);
        assert(json::member_models(members@) =~= success(output@.json())->Object_0);
    }
    Json::Object(members)
}

/// What scripts get of a command that failed. `message` is the message of the
/// error in the words of its language.
pub fn error_envelope(error: &CliError, message: &str) -> (res: Json)
    ensures
        res@ == failure(error@, message@),
{
    let mut inner: Vec<(String, Json)> = Vec::new();
    inner.push(
        ("category".to_string(), json::opt_text_json(text::clone_opt_string(&error.category))),
    );
    inner.push(("exit_code".to_string(), Json::Unsigned(error.code as u64)));
    inner.push(("kind".to_string(), Json::Str(error.kind.clone())));
    inner.push(("message".to_string(), Json::Str(message.to_string())));
    let ghost inner_members = inner;
    let mut members: Vec<(String, Json)> = Vec::new();
    members.push(("error".to_string(), Json::Object(inner)));
    members.push(("ok".to_string(), Json::Bool(false)));
    proof {
        let wanted = failure(error@, message@)->Object_0;
        json::lemma_object(inner_members);
        assert(json::member_models(inner_members@) =~= wanted[0].1->Object_0);
        json::lemma_object(members);
        assert(json::member_models(members@) =~= wanted);
    }
    Json::Object(members)
}

// ---------------------------------------------------------------------------
// Output for people
// ---------------------------------------------------------------------------

/// The end of a line.
pub open spec fn line_end() -> Seq<SpanModel> {
    text::plain("\n"@)
}

/// The key of the name of the state of the vault.
pub open spec fn vault_key(s: StatusModel) -> Seq<char> {
    if !s.vault_exists {
        "cli_vault_missing"@
    } else if s.locked {
        "cli_vault_locked"@
    } else {
        "cli_vault_unlocked"@
    }
}

/// The name of a way to authenticate: the word itself where it has no other.
pub open spec fn auth_arg(kind: Seq<char>) -> ArgModel {
    if kind == "password"@ {
        ArgModel::Key("editor_auth_password"@)
    } else if kind == "key"@ {
        ArgModel::Key("editor_auth_key_file"@)
    } else {
        ArgModel::Plain(kind)
    }
}

/// The text of a name.
pub open spec fn arg_text(lang: Lang, arg: ArgModel) -> Seq<SpanModel> {
    match arg {
        ArgModel::Key(key) => text::tr(lang, key),
        ArgModel::Plain(s) => text::plain(s),
    }
}

/// The text, or a dash.
pub open spec fn or_dash(s: Option<Seq<char>>) -> Seq<char> {
    match s {
        Some(text) => text,
        None => "—"@,
    }
}

impl StatusModel {
    pub open spec fn doctor_text(self, config_dir: Seq<char>, lang: Lang) -> Seq<SpanModel> {
        text::tr(lang, "cli_doctor_daemon_ok"@) + line_end() + text::trf1(
            lang,
            "cli_doctor_config_dir"@,
            config_dir,
        ) + line_end() + text::trf(
            lang,
            "cli_doctor_vault"@,
            seq![
                ArgModel::Key(vault_key(self)),
                ArgModel::Plain(strings::decimal(self.host_count)),
            ],
        ) + line_end()
    }

    pub open spec fn text(self, lang: Lang) -> Seq<SpanModel> {
        text::trf(
            lang,
            "cli_status_vault_exists"@,
            seq![
                ArgModel::Key(
                    if self.vault_exists {
                        "cli_yes"@
                    } else {
                        "cli_no"@
                    },
                ),
            ],
        ) + line_end() + text::trf(
            lang,
            "cli_status_lock_state"@,
            seq![
                ArgModel::Key(
                    if self.locked {
                        "cli_vault_locked"@
                    } else {
                        "cli_vault_unlocked"@
                    },
                ),
            ],
        ) + line_end() + text::trf1(
            lang,
            "cli_status_host_count"@,
            strings::decimal(self.host_count),
        ) + line_end() + text::trf1(
            lang,
            "cli_status_revision"@,
            strings::decimal(self.revision),
        ) + line_end() + text::trf1(lang, "cli_status_device_id"@, self.device_id) + line_end()
    }
}

impl SummaryModel {
    /// The line of a host in a list.
    pub open spec fn line(self, lang: Lang) -> Seq<SpanModel> {
        text::plain(
            self.id + "\t"@ + self.user + "@"@ + self.host + ":"@ + strings::decimal(
                self.port as nat,
            ) + "\t"@,
        ) + arg_text(lang, auth_arg(self.auth_kind)) + text::plain("\t"@ + self.name)
    }

    /// A host with its details.
    pub open spec fn text(self, lang: Lang) -> Seq<SpanModel> {
        text::trf1(lang, "cli_host_name"@, self.name) + line_end() + text::trf1(
            lang,
            "cli_host_id"@,
            self.id,
        ) + line_end() + text::trf(
            lang,
            "cli_host_address"@,
            seq![
                ArgModel::Plain(self.user),
                ArgModel::Plain(self.host),
                ArgModel::Plain(strings::decimal(self.port as nat)),
            ],
        ) + line_end() + text::trf(lang, "cli_host_auth"@, seq![auth_arg(self.auth_kind)])
            + line_end() + text::trf1(lang, "cli_host_group"@, or_dash(self.group)) + line_end()
            + text::trf1(
            lang,
            "cli_host_tags"@,
            if self.tags.len() == 0 {
                "—"@
            } else {
                strings::joined(self.tags, ", "@)
            },
        ) + line_end() + text::trf1(lang, "cli_host_notes"@, or_dash(self.notes)) + line_end()
    }
}

impl SessionModel {
    /// The line of a session in a list.
    pub open spec fn line(self, lang: Lang) -> Seq<SpanModel> {
        text::plain(
            self.session_id + "\t"@ + strings::decimal(self.cols as nat) + "×"@ + strings::decimal(
                self.rows as nat,
            ) + "\t"@,
        ) + text::tr(
            lang,
            if self.alive {
                "cli_session_alive"@
            } else {
                "cli_session_closed"@
            },
        ) + text::plain("\t"@ + or_dash(self.foreground_process))
    }
}

/// A line for each host.
pub open spec fn host_lines(hosts: Seq<SummaryModel>, lang: Lang) -> Seq<SpanModel>
    decreases hosts.len(),
{
    if hosts.len() == 0 {
        Seq::empty()
    } else {
        host_lines(hosts.drop_last(), lang) + hosts.last().line(lang) + line_end()
    }
}

/// A line for each session.
pub open spec fn session_lines(sessions: Seq<SessionModel>, lang: Lang) -> Seq<SpanModel>
    decreases sessions.len(),
{
    if sessions.len() == 0 {
        Seq::empty()
    } else {
        session_lines(sessions.drop_last(), lang) + sessions.last().line(lang) + line_end()
    }
}

impl OutputModel {
    pub open spec fn text(self, lang: Lang) -> Seq<SpanModel> {
        match self {
            OutputModel::Doctor { config_dir, status } => status.doctor_text(config_dir, lang),
            OutputModel::Status(status) => status.text(lang),
            OutputModel::Hosts(hosts) => if hosts.len() == 0 {
                text::tr(lang, "cli_hosts_empty"@) + line_end()
            } else {
                host_lines(hosts, lang)
            },
            OutputModel::Host(host) => host.text(lang),
            OutputModel::Sessions(sessions) => if sessions.len() == 0 {
                text::tr(lang, "cli_sessions_empty"@) + line_end()
            } else {
                session_lines(sessions, lang)
            },
            OutputModel::Screen(screen) => text::plain(strings::joined(screen.lines, "\n"@)),
        }
    }
}

fn end_line(out: &mut Text)
    ensures
        final(out)@ == old(out)@ + line_end(),
{
    out.push(Text::plain("\n".to_string()));
}

fn one_arg(arg: Arg) -> (res: Vec<Arg>)
    ensures
        text::arg_models(res@) == seq![arg@],
{
    let mut args: Vec<Arg> = Vec::new();
    args.push(arg);
    proof {
        assert(text::arg_models(args@) =~= seq![arg@]);
    }
    args
}

fn push_arg(args: &mut Vec<Arg>, arg: Arg)
    ensures
        text::arg_models(final(args)@) == text::arg_models(old(args)@).push(arg@),
{
    let ghost before = args@;
    args.push(arg);
    proof {
        assert(text::arg_models(args@) =~= text::arg_models(before).push(arg@));
    }
}

fn vault_state(status: &VaultStatus) -> (res: Arg)
    ensures
        res@ == ArgModel::Key(vault_key(status@)),
{
    if !status.vault_exists {
        Arg::Key("cli_vault_missing".to_string())
    } else if status.locked {
        Arg::Key("cli_vault_locked".to_string())
    } else {
        Arg::Key("cli_vault_unlocked".to_string())
    }
}

fn auth_label(kind: &str) -> (res: Arg)
    ensures
        res@ == auth_arg(kind@),
{
    if strings::text_eq(kind, "password") {
        Arg::Key("editor_auth_password".to_string())
    } else if strings::text_eq(kind, "key") {
        Arg::Key("editor_auth_key_file".to_string())
    } else {
        Arg::Plain(kind.to_string())
    }
}

fn text_or_dash(s: &Option<String>) -> (res: String)
    ensures
        res@ == or_dash(strings::opt_text(*s)),
{
    match s {
        Some(text) => text.clone(),
        None => "—".to_string(),
    }
}

impl VaultStatus {
    fn doctor_text(&self, config_dir: &str, i18n: &I18n) -> (res: Text)
        ensures
            res@ == self@.doctor_text(config_dir@, i18n.lang),
    {
        let mut out = i18n.tr("cli_doctor_daemon_ok");
        end_line(&mut out);
        out.push(i18n.trf1("cli_doctor_config_dir", config_dir.to_string()));
        end_line(&mut out);
        let mut args = one_arg(vault_state(self));
        let count = Arg::Plain(strings::decimal_text(self.host_count as u64));
        push_arg(&mut args, count);
        proof {
            assert(text::arg_models(args@) =~= seq![ArgModel::Key(vault_key(self@)), count@]);
        }
        out.push(i18n.trf("cli_doctor_vault", args));
        end_line(&mut out);
        out
    }

    fn human_text(&self, i18n: &I18n) -> (res: Text)
        ensures
            res@ == self@.text(i18n.lang),
    {
        let exists = if self.vault_exists {
            "cli_yes".to_string()
        } else {
            "cli_no".to_string()
        };
        let state = if self.locked {
            "cli_vault_locked".to_string()
        } else {
            "cli_vault_unlocked".to_string()
        };
        let mut out = i18n.trf("cli_status_vault_exists", one_arg(Arg::Key(exists)));
        end_line(&mut out);
        out.push(i18n.trf("cli_status_lock_state", one_arg(Arg::Key(state))));
        end_line(&mut out);
        out.push(
            i18n.trf1("cli_status_host_count", strings::decimal_text(self.host_count as u64)),
        );
        end_line(&mut out);
        out.push(i18n.trf1("cli_status_revision", strings::decimal_text(self.revision)));
        end_line(&mut out);
        out.push(i18n.trf1("cli_status_device_id", self.device_id.clone()));
        end_line(&mut out);
        out
    }
}

impl HostSummary {
    fn line(&self, i18n: &I18n) -> (res: Text)
        ensures
            res@ == self@.line(i18n.lang),
    {
        let mut head = strings::concat3(self.id.as_str(), "\t", self.user.as_str());
        head.append("@");
        head.append(self.host.as_str());
        head.append(":");
        let port = strings::decimal_text(self.port as u64);
        head.append(port.as_str());
        head.append("\t");
        let mut out = Text::plain(head);
        match auth_label(self.auth_kind.as_str()) {
            Arg::Key(key) => out.push(i18n.tr(key.as_str())),
            Arg::Plain(s) => out.push(Text::plain(s)),
        }
        out.push(Text::plain(strings::concat("\t", self.name.as_str())));
        out
    }

    fn human_text(&self, i18n: &I18n) -> (res: Text)
        ensures
            res@ == self@.text(i18n.lang),
    {
        let mut out = i18n.trf1("cli_host_name", self.name.clone());
        end_line(&mut out);
        out.push(i18n.trf1("cli_host_id", self.id.clone()));
        end_line(&mut out);
        let mut address = one_arg(Arg::Plain(self.user.clone()));
        push_arg(&mut address, Arg::Plain(self.host.clone()));
        let port = Arg::Plain(strings::decimal_text(self.port as u64));
        push_arg(&mut address, port);
        proof {
            assert(text::arg_models(address@) =~= seq![
                ArgModel::Plain(self@.user),
                ArgModel::Plain(self@.host),
                port@,
            ]);
        }
        out.push(i18n.trf("cli_host_address", address));
        end_line(&mut out);
        out.push(i18n.trf("cli_host_auth", one_arg(auth_label(self.auth_kind.as_str()))));
        end_line(&mut out);
        out.push(i18n.trf1("cli_host_group", text_or_dash(&self.group)));
        end_line(&mut out);
        let tags = if self.tags.len() == 0 {
            "—".to_string()
        } else {
            strings::join(&self.tags, ", ")
        };
        out.push(i18n.trf1("cli_host_tags", tags));
        end_line(&mut out);
        out.push(i18n.trf1("cli_host_notes", text_or_dash(&self.notes)));
        end_line(&mut out);
        out
    }
}

impl SessionInfo {
    fn line(&self, i18n: &I18n) -> (res: Text)
        ensures
            res@ == self@.line(i18n.lang),
    {
        let cols = strings::decimal_text(self.cols as u64);
        let rows = strings::decimal_text(self.rows as u64);
        let mut head = strings::concat3(self.session_id.as_str(), "\t", cols.as_str());
        head.append("×");
        head.append(rows.as_str());
        head.append("\t");
        let mut out = Text::plain(head);
        if self.alive {
            out.push(i18n.tr("cli_session_alive"));
        } else {
            out.push(i18n.tr("cli_session_closed"));
        }
        let process = text_or_dash(&self.foreground_process);
        out.push(Text::plain(strings::concat("\t", process.as_str())));
        out
    }
}

fn hosts_text(hosts: &Vec<HostSummary>, i18n: &I18n) -> (res: Text)
    ensures
        res@ == host_lines(summary_models(hosts@), i18n.lang),
{
    let ghost all = summary_models(hosts@);
    let mut out = Text::empty();
    let mut i: usize = 0;
    proof {
        assert(all.take(0) =~= Seq::<SummaryModel>::empty());
    }
    while i < hosts.len()
        invariant
            i <= hosts@.len(),
            all == summary_models(hosts@),
            out@ == host_lines(all.take(i as int), i18n.lang),
        decreases hosts@.len() - i,
    {
        proof {
            assert(all.take(i + 1).drop_last() =~= all.take(i as int));
        }
        out.push(hosts[i].line(i18n));
        end_line(&mut out);
        i += 1;
    }
    proof {
        assert(all.take(i as int) =~= all);
    }
    out
}

fn sessions_text(sessions: &Vec<SessionInfo>, i18n: &I18n) -> (res: Text)
    ensures
        res@ == session_lines(session_models(sessions@), i18n.lang),
{
    let ghost all = session_models(sessions@);
    let mut out = Text::empty();
    let mut i: usize = 0;
    proof {
        assert(all.take(0) =~= Seq::<SessionModel>::empty());
    }
    while i < sessions.len()
        invariant
            i <= sessions@.len(),
            all == session_models(sessions@),
            out@ == session_lines(all.take(i as int), i18n.lang),
        decreases sessions@.len() - i,
    {
        proof {
            assert(all.take(i + 1).drop_last() =~= all.take(i as int));
        }
        out.push(sessions[i].line(i18n));
        end_line(&mut out);
        i += 1;
    }
    proof {
        assert(all.take(i as int) =~= all);
    }
    out
}

impl Output {
    /// The data, for people.
    pub fn human_text(&self, i18n: &I18n) -> (res: Text)
        ensures
            res@ == self@.text(i18n.lang),
    {
        match self {
            Output::Doctor { config_dir, status } => status.doctor_text(config_dir.as_str(), i18n),
            Output::Status(status) => status.human_text(i18n),
            Output::Hosts(hosts) => if hosts.len() == 0 {
                let mut out = i18n.tr("cli_hosts_empty");
                end_line(&mut out);
                out
            } else {
                hosts_text(hosts, i18n)
            },
            Output::Host(host) => host.human_text(i18n),
            Output::Sessions(sessions) => if sessions.len() == 0 {
                let mut out = i18n.tr("cli_sessions_empty");
                end_line(&mut out);
                out
            } else {
                sessions_text(sessions, i18n)
            },
            Output::Screen(screen) => Text::plain(strings::join(&screen.lines, "\n")),
        }
    }
}

/// What a command that succeeded prints.
pub fn print_success(as_json: bool, output: &Output, i18n: &I18n) -> (res: Text)
    ensures
        res@ == (if as_json {
            text::plain(json::compact(json::collected(success(output@.json())))) + line_end()
        } else {
            output@.text(i18n.lang)
        }),
{
    if as_json {
        let mut out = Text::plain(json::to_text(&success_envelope(output)));
        end_line(&mut out);
        out
    } else {
        output.human_text(i18n)
    }
}

/// What a command that failed prints: for scripts with the rest of the output,
/// for people as an error. `message` is the message of the error in the words
/// of its language.
pub fn print_error(as_json: bool, error: &CliError, message: &str, i18n: &I18n) -> (res: Text)
    ensures
        res@ == (if as_json {
            text::plain(json::compact(json::collected(failure(error@, message@)))) + line_end()
        } else {
            text::trf1(i18n.lang, "cli_error_prefix"@, message@) + line_end()
        }),
{
    let mut out = if as_json {
        Text::plain(json::to_text(&error_envelope(error, message)))
    } else {
        i18n.trf1("cli_error_prefix", message.to_string())
    };
    end_line(&mut out);
    out
}

// ---------------------------------------------------------------------------
// Laws
// ---------------------------------------------------------------------------

/// An id selects its host, whatever names the other hosts have.
pub proof fn law_id_is_preferred(hosts: Seq<SummaryModel>, i: int, lang: Lang)
    requires
        0 <= i < hosts.len(),
        forall|j: int| 0 <= j < i ==> (#[trigger] hosts[j]).id != hosts[i].id,
    ensures
        selection(hosts, hosts[i].id, lang) == Ok::<SummaryModel, CliErrorModel>(hosts[i]),
{
    let p = with_id(hosts[i].id);
    assert(p(hosts[i]));
    assert forall|j: int| 0 <= j < i implies !p(#[trigger] hosts[j]) by {}
    model::lemma_first_index_some(hosts, p, i);
}

/// A name that two hosts have selects neither of them.
pub proof fn law_ambiguous_name_selects_nothing(
    hosts: Seq<SummaryModel>,
    i: int,
    j: int,
    lang: Lang,
)
    requires
        0 <= i < j < hosts.len(),
        hosts[i].name == hosts[j].name,
        forall|k: int| 0 <= k < hosts.len() ==> (#[trigger] hosts[k]).id != hosts[i].name,
    ensures
        selection(hosts, hosts[i].name, lang) matches Err(e) && e.code == 13,
{
    let name = hosts[i].name;
    let by_id = with_id(name);
    assert forall|k: int| 0 <= k < hosts.len() implies !by_id(#[trigger] hosts[k]) by {}
    model::lemma_first_index_none(hosts, by_id);
    let p = with_name(name);
    assert(p(hosts[i]) && p(hosts[j]));
    model::lemma_filter_push(hosts.take(j), hosts[j], p);
    assert(hosts.take(j + 1) =~= hosts.take(j).push(hosts[j]));
    lemma_filter_grows(hosts, j + 1, p);
    let init = hosts.take(j);
    assert(init[i] == hosts[i]);
    model::lemma_filter_push(init.take(i), init[i], p);
    assert(init.take(i + 1) =~= init.take(i).push(init[i]));
    lemma_filter_grows(init, i + 1, p);
}

/// The screen of a terminal is shown as it is, whatever the language.
pub proof fn law_screen_is_not_translated(screen: ScreenModel, a: Lang, b: Lang)
    ensures
        OutputModel::Screen(screen).text(a) == OutputModel::Screen(screen).text(b),
{
}

proof fn lemma_names_with(hosts: Seq<SummaryModel>, i: int, name: Seq<char>)
    requires
        0 <= i < hosts.len(),
        hosts[i].name == name,
        forall|k: int| 0 <= k < hosts.len() && k != i ==> (#[trigger] hosts[k]).name != name,
    ensures
        hosts.filter(with_name(name)) == seq![hosts[i]],
    decreases hosts.len(),
{
    let p = with_name(name);
    let init = hosts.drop_last();
    model::lemma_filter_push(init, hosts.last(), p);
    assert(init.push(hosts.last()) =~= hosts);
    if i == hosts.len() - 1 {
        lemma_no_name(init, name);
        assert(init.filter(p).push(hosts[i]) =~= seq![hosts[i]]);
    } else {
        assert forall|k: int| 0 <= k < init.len() && k != i implies (
        #[trigger] init[k]).name != name by {
            assert(hosts[k].name != name);
        }
        lemma_names_with(init, i, name);
    }
}

proof fn lemma_no_name(hosts: Seq<SummaryModel>, name: Seq<char>)
    requires
        forall|k: int| 0 <= k < hosts.len() ==> (#[trigger] hosts[k]).name != name,
    ensures
        hosts.filter(with_name(name)).len() == 0,
    decreases hosts.len(),
{
    if hosts.len() > 0 {
        let init = hosts.drop_last();
        model::lemma_filter_push(init, hosts.last(), with_name(name));
        assert(init.push(hosts.last()) =~= hosts);
        assert forall|k: int| 0 <= k < init.len() implies (#[trigger] init[k]).name != name by {
            assert(hosts[k].name != name);
        }
        lemma_no_name(init, name);
    } else {
        reveal(Seq::filter);
    }
}

/// A name that one host alone has, and no host as its id, selects that host; a
/// word that no host has selects none, and the exit code tells so.
pub proof fn law_name_selects_its_host(
    hosts: Seq<SummaryModel>,
    i: int,
    word: Seq<char>,
    lang: Lang,
)
    requires
        forall|k: int| 0 <= k < hosts.len() ==> (#[trigger] hosts[k]).id != word,
    ensures
        0 <= i < hosts.len() && hosts[i].name == word && (forall|k: int|
            0 <= k < hosts.len() && k != i ==> (#[trigger] hosts[k]).name != word) ==> selection(
            hosts,
            word,
            lang,
        ) == Ok::<SummaryModel, CliErrorModel>(hosts[i]),
        (forall|k: int| 0 <= k < hosts.len() ==> (#[trigger] hosts[k]).name != word)
            ==> selection(hosts, word, lang) is Err && (selection(
            hosts,
            word,
            lang,
        )->Err_0).code == 12 && (selection(hosts, word, lang)->Err_0).kind
            == "host_not_found"@,
{
    let by_id = with_id(word);
    assert forall|k: int| 0 <= k < hosts.len() implies !by_id(#[trigger] hosts[k]) by {}
    model::lemma_first_index_none(hosts, by_id);
    if 0 <= i < hosts.len() && hosts[i].name == word && (forall|k: int|
        0 <= k < hosts.len() && k != i ==> (#[trigger] hosts[k]).name != word) {
        lemma_names_with(hosts, i, word);
    }
    if forall|k: int| 0 <= k < hosts.len() ==> (#[trigger] hosts[k]).name != word {
        lemma_no_name(hosts, word);
    }
}

/// A command comes to what the daemon answered, unchanged: the state of the
/// vault, the hosts, the sessions or the screen; one host of the list where one
/// was asked for.
pub proof fn law_command_comes_to_the_answer(
    command: Command,
    answer: Answer,
    dir: Seq<char>,
    lang: Lang,
)
    requires
        answers(command, answer),
    ensures
        ({
            let with = conclusion(command, answer, Some(dir), lang);
            let without = conclusion(command, answer, None, lang);
            match command {
                Command::Doctor => answer matches Answer::Status(s) && with == Ok::<
                    OutputModel,
                    CliErrorModel,
                >(OutputModel::Doctor { config_dir: dir, status: s@ }) && without is Err && (
                without->Err_0).code == 10,
                Command::Status => answer matches Answer::Status(s) && with == Ok::<
                    OutputModel,
                    CliErrorModel,
                >(OutputModel::Status(s@)),
                Command::HostList => answer matches Answer::Hosts(h) && with == Ok::<
                    OutputModel,
                    CliErrorModel,
                >(OutputModel::Hosts(summary_models(h@))),
                Command::HostShow { host } => answer matches Answer::Hosts(h) && match selection(
                    summary_models(h@),
                    host@,
                    lang,
                ) {
                    Ok(one) => with == Ok::<OutputModel, CliErrorModel>(OutputModel::Host(one)),
                    Err(e) => with == Err::<OutputModel, CliErrorModel>(e),
                },
                Command::SessionList => answer matches Answer::Sessions(s) && with == Ok::<
                    OutputModel,
                    CliErrorModel,
                >(OutputModel::Sessions(session_models(s@))),
                Command::SessionScreen { .. } => answer matches Answer::Screen(s) && with == Ok::<
                    OutputModel,
                    CliErrorModel,
                >(OutputModel::Screen(s@)),
            }
        }),
{
}

/// Scripts find each thing of a host under its own name, and null where a host
/// has no group, color or notes; no secret is among it.
pub proof fn law_host_for_scripts(h: SummaryModel)
    ensures
        ({
            let j = OutputModel::Host(h).json();
            &&& j.member("id"@) == Some(JsonModel::Str(h.id))
            &&& j.member("name"@) == Some(JsonModel::Str(h.name))
            &&& j.member("host"@) == Some(JsonModel::Str(h.host))
            &&& j.member("user"@) == Some(JsonModel::Str(h.user))
            &&& j.member("port"@) == Some(JsonModel::Unsigned(h.port as nat))
            &&& j.member("auth_kind"@) == Some(JsonModel::Str(h.auth_kind))
            &&& j.member("group"@) == Some(
                match h.group {
                    Some(s) => JsonModel::Str(s),
                    None => JsonModel::Null,
                },
            )
            &&& j.member("color"@) == Some(
                match h.color {
                    Some(s) => JsonModel::Str(s),
                    None => JsonModel::Null,
                },
            )
            &&& j.member("notes"@) == Some(
                match h.notes {
                    Some(s) => JsonModel::Str(s),
                    None => JsonModel::Null,
                },
            )
            &&& j.member("tags"@) is Some
            &&& json::texts_among(j.at("tags"@).items()->0) == h.tags
            &&& j.member("password"@) is None
        }),
{
    reveal_strlit("auth_kind");
    reveal_strlit("color");
    reveal_strlit("group");
    reveal_strlit("host");
    reveal_strlit("id");
    reveal_strlit("name");
    reveal_strlit("notes");
    reveal_strlit("port");
    reveal_strlit("tags");
    reveal_strlit("user");
    reveal_strlit("password");
    let m = OutputModel::Host(h).json()->Object_0;
    assert("auth_kind"@[0] == 'a' && "color"@[0] == 'c' && "group"@[0] == 'g');
    assert("host"@[0] == 'h' && "id"@[0] == 'i' && "name"@[0] == 'n' && "name"@[1] == 'a');
    assert("notes"@[0] == 'n' && "notes"@[1] == 'o' && "port"@[0] == 'p' && "port"@[1] == 'o');
    assert("tags"@[0] == 't' && "user"@[0] == 'u' && "password"@[1] == 'a');
    json::law_first_member_counts(m, "auth_kind"@, 0);
    json::law_first_member_counts(m, "color"@, 1);
    json::law_first_member_counts(m, "group"@, 2);
    json::law_first_member_counts(m, "host"@, 3);
    json::law_first_member_counts(m, "id"@, 4);
    json::law_first_member_counts(m, "name"@, 5);
    json::law_first_member_counts(m, "notes"@, 6);
    json::law_first_member_counts(m, "port"@, 7);
    json::law_first_member_counts(m, "tags"@, 8);
    json::law_first_member_counts(m, "user"@, 9);
    json::law_missing_member(JsonModel::Object(m), "password"@);
    lemma_text_array_back(h.tags);
}

proof fn lemma_text_array_back(list: Seq<Seq<char>>)
    ensures
        json::texts_among(json::text_array(list)->Array_0) == list,
    decreases list.len(),
{
    let all = json::text_array(list)->Array_0;
    if list.len() > 0 {
        lemma_text_array_back(list.drop_last());
        assert(all.drop_last() =~= json::text_array(list.drop_last())->Array_0);
        assert(list.drop_last().push(list.last()) =~= list);
    } else {
        assert(list =~= Seq::<Seq<char>>::empty());
    }
}

/// Scripts find each thing of the state of the vault under its own name.
pub proof fn law_status_for_scripts(s: StatusModel, dir: Seq<char>)
    ensures
        ({
            let j = OutputModel::Status(s).json();
            &&& j.truth_at("locked"@) == Some(s.locked)
            &&& j.truth_at("vault_exists"@) == Some(s.vault_exists)
            &&& j.unsigned_at("host_count"@) == Some(s.host_count)
            &&& j.unsigned_at("revision"@) == Some(s.revision)
            &&& j.text_at("device_id"@) == Some(s.device_id)
            &&& OutputModel::Doctor { config_dir: dir, status: s }.json() == JsonModel::Object(
                seq![
                    ("config_dir"@, JsonModel::Str(dir)),
                    ("daemon"@, JsonModel::Str("reachable"@)),
                    ("vault"@, j),
                ],
            )
        }),
{
    reveal_strlit("device_id");
    reveal_strlit("host_count");
    reveal_strlit("locked");
    reveal_strlit("revision");
    reveal_strlit("vault_exists");
    let m = OutputModel::Status(s).json()->Object_0;
    assert("device_id"@[0] == 'd' && "host_count"@[0] == 'h' && "locked"@[0] == 'l');
    assert("revision"@[0] == 'r' && "vault_exists"@[0] == 'v');
    json::law_first_member_counts(m, "device_id"@, 0);
    json::law_first_member_counts(m, "host_count"@, 1);
    json::law_first_member_counts(m, "locked"@, 2);
    json::law_first_member_counts(m, "revision"@, 3);
    json::law_first_member_counts(m, "vault_exists"@, 4);
}

/// Scripts find each thing of a session under its own name.
pub proof fn law_session_for_scripts(s: SessionModel)
    ensures
        ({
            let j = s.json();
            &&& j.text_at("session_id"@) == Some(s.session_id)
            &&& j.unsigned_at("cols"@) == Some(s.cols as nat)
            &&& j.unsigned_at("rows"@) == Some(s.rows as nat)
            &&& j.truth_at("alive"@) == Some(s.alive)
            &&& s.exit_code is Some ==> j.unsigned_at("exit_code"@) == Some(s.exit_code->0 as nat)
            &&& s.exit_code is None ==> j.at("exit_code"@) == JsonModel::Null
            &&& s.foreground_process is Some ==> j.text_at("foreground_process"@)
                == s.foreground_process
            &&& s.foreground_process is None ==> j.at("foreground_process"@) == JsonModel::Null
        }),
{
    reveal_strlit("alive");
    reveal_strlit("cols");
    reveal_strlit("exit_code");
    reveal_strlit("foreground_process");
    reveal_strlit("rows");
    reveal_strlit("session_id");
    let m = s.json()->Object_0;
    assert("alive"@[0] == 'a' && "cols"@[0] == 'c' && "exit_code"@[0] == 'e');
    assert("foreground_process"@[0] == 'f' && "rows"@[0] == 'r' && "session_id"@[0] == 's');
    json::law_first_member_counts(m, "alive"@, 0);
    json::law_first_member_counts(m, "cols"@, 1);
    json::law_first_member_counts(m, "exit_code"@, 2);
    json::law_first_member_counts(m, "foreground_process"@, 3);
    json::law_first_member_counts(m, "rows"@, 4);
    json::law_first_member_counts(m, "session_id"@, 5);
}

/// Scripts get the lines of a screen as they are, the columns of wide
/// characters line by line, and the cursor.
pub proof fn law_screen_for_scripts(s: ScreenModel)
    ensures
        ({
            let j = OutputModel::Screen(s).json();
            &&& j.items_at("lines"@) is Some
            &&& json::texts_among(j.items_at("lines"@)->0) == s.lines
            &&& j.at("cursor"@).unsigned_at("row"@) == Some(s.cursor.row as nat)
            &&& j.at("cursor"@).unsigned_at("col"@) == Some(s.cursor.col as nat)
            &&& j.items_at("wide_cols"@) is Some
            &&& j.items_at("wide_cols"@)->0.len() == s.wide_cols.len()
        }),
{
    reveal_strlit("cursor");
    reveal_strlit("lines");
    reveal_strlit("wide_cols");
    reveal_strlit("row");
    reveal_strlit("col");
    let m = OutputModel::Screen(s).json()->Object_0;
    assert("cursor"@[0] == 'c' && "lines"@[0] == 'l' && "wide_cols"@[0] == 'w');
    assert("row"@[0] == 'r' && "col"@[0] == 'c');
    json::law_first_member_counts(m, "cursor"@, 0);
    json::law_first_member_counts(m, "lines"@, 1);
    json::law_first_member_counts(m, "wide_cols"@, 2);
    let c = m[0].1->Object_0;
    json::law_first_member_counts(c, "col"@, 0);
    json::law_first_member_counts(c, "row"@, 1);
    lemma_text_array_back(s.lines);
}

/// A list for scripts has an item for each host or session, in order.
pub proof fn law_lists_for_scripts(
    hosts: Seq<SummaryModel>,
    sessions: Seq<SessionModel>,
    i: int,
)
    ensures
        ({
            let (a, b) = (
                OutputModel::Hosts(hosts).json(),
                OutputModel::Sessions(sessions).json(),
            );
            &&& a is Array && a->Array_0.len() == hosts.len()
            &&& b is Array && b->Array_0.len() == sessions.len()
            &&& 0 <= i < hosts.len() ==> a->Array_0[i] == OutputModel::Host(hosts[i]).json()
            &&& 0 <= i < sessions.len() ==> b->Array_0[i] == sessions[i].json()
        }),
{
}

/// Scripts can tell success from failure: what succeeded has its data, what
/// failed has the exit code, the kind and the message of the error.
pub proof fn law_envelopes(data: JsonModel, e: CliErrorModel, message: Seq<char>)
    ensures
        success(data).truth_at("ok"@) == Some(true),
        success(data).member("data"@) == Some(data),
        failure(e, message).truth_at("ok"@) == Some(false),
        failure(e, message).at("error"@).unsigned_at("exit_code"@) == Some(e.code as nat),
        failure(e, message).at("error"@).text_at("kind"@) == Some(e.kind),
        failure(e, message).at("error"@).text_at("message"@) == Some(message),
        e.category is Some ==> failure(e, message).at("error"@).text_at("category"@)
            == e.category,
        e.category is None ==> failure(e, message).at("error"@).at("category"@)
            == JsonModel::Null,
{
    reveal_strlit("data");
    reveal_strlit("ok");
    reveal_strlit("error");
    reveal_strlit("category");
    reveal_strlit("exit_code");
    reveal_strlit("kind");
    reveal_strlit("message");
    assert("data"@[0] == 'd' && "ok"@[0] == 'o' && "error"@[0] == 'e');
    assert("category"@[0] == 'c' && "exit_code"@[0] == 'e' && "kind"@[0] == 'k');
    assert("message"@[0] == 'm');
    let s = success(data)->Object_0;
    json::law_first_member_counts(s, "data"@, 0);
    json::law_first_member_counts(s, "ok"@, 1);
    let f = failure(e, message)->Object_0;
    json::law_first_member_counts(f, "error"@, 0);
    json::law_first_member_counts(f, "ok"@, 1);
    let inner = f[0].1->Object_0;
    json::law_first_member_counts(inner, "category"@, 0);
    json::law_first_member_counts(inner, "exit_code"@, 1);
    json::law_first_member_counts(inner, "kind"@, 2);
    json::law_first_member_counts(inner, "message"@, 3);
}

/// People read each thing of a host on a line of its own, a dash where there is
/// none.
pub proof fn law_host_for_people(h: SummaryModel, lang: Lang)
    ensures
        ({
            let t = OutputModel::Host(h).text(lang);
            let says = |key: Seq<char>, arg: Seq<char>|
                SpanModel::Translated { lang, key, args: seq![ArgModel::Plain(arg)] };
            let end = SpanModel::Plain("\n"@);
            &&& t.len() == 14
            &&& t[0] == says("cli_host_name"@, h.name)
            &&& t[2] == says("cli_host_id"@, h.id)
            &&& t[4] matches SpanModel::Translated { key, args, .. } && key == "cli_host_address"@
                && args =~= seq![
                ArgModel::Plain(h.user),
                ArgModel::Plain(h.host),
                ArgModel::Plain(strings::decimal(h.port as nat)),
            ]
            &&& t[6] matches SpanModel::Translated { key, args, .. } && key == "cli_host_auth"@
                && args.len() == 1
            &&& h.group is Some ==> t[8] == says("cli_host_group"@, h.group->0)
            &&& h.group is None ==> t[8] == says("cli_host_group"@, "—"@)
            &&& h.tags.len() > 0 ==> t[10] == says(
                "cli_host_tags"@,
                strings::joined(h.tags, ", "@),
            )
            &&& h.tags.len() == 0 ==> t[10] == says("cli_host_tags"@, "—"@)
            &&& h.notes is Some ==> t[12] == says("cli_host_notes"@, h.notes->0)
            &&& h.notes is None ==> t[12] == says("cli_host_notes"@, "—"@)
            &&& t[1] == end && t[3] == end && t[5] == end && t[7] == end && t[9] == end && t[11]
                == end && t[13] == end
        }),
{
}

/// People read whether there is a vault, whether it is locked, how many hosts
/// it has, its revision and its device.
pub proof fn law_status_for_people(s: StatusModel, lang: Lang)
    ensures
        ({
            let t = OutputModel::Status(s).text(lang);
            let says = |key: Seq<char>, arg: ArgModel|
                SpanModel::Translated { lang, key, args: seq![arg] };
            &&& t.len() == 10
            &&& s.vault_exists ==> t[0] == says(
                "cli_status_vault_exists"@,
                ArgModel::Key("cli_yes"@),
            )
            &&& !s.vault_exists ==> t[0] == says(
                "cli_status_vault_exists"@,
                ArgModel::Key("cli_no"@),
            )
            &&& s.locked ==> t[2] == says(
                "cli_status_lock_state"@,
                ArgModel::Key("cli_vault_locked"@),
            )
            &&& !s.locked ==> t[2] == says(
                "cli_status_lock_state"@,
                ArgModel::Key("cli_vault_unlocked"@),
            )
            &&& t[4] == says(
                "cli_status_host_count"@,
                ArgModel::Plain(strings::decimal(s.host_count)),
            )
            &&& t[6] == says(
                "cli_status_revision"@,
                ArgModel::Plain(strings::decimal(s.revision)),
            )
            &&& t[8] == says("cli_status_device_id"@, ArgModel::Plain(s.device_id))
        }),
{
}

/// A list for people has a line for each host, in order, with its id, address,
/// way of authentication and name; an empty one says so.
pub proof fn law_hosts_for_people(hosts: Seq<SummaryModel>, h: SummaryModel, lang: Lang)
    ensures
        ({
            let before = if hosts.len() == 0 {
                Seq::empty()
            } else {
                OutputModel::Hosts(hosts).text(lang)
            };
            let after = OutputModel::Hosts(hosts.push(h)).text(lang);
            let n = before.len() as int;
            &&& after.len() == n + 4
            &&& after.take(n) == before
            &&& after[n] == SpanModel::Plain(
                h.id + "\t"@ + h.user + "@"@ + h.host + ":"@ + strings::decimal(h.port as nat)
                    + "\t"@,
            )
            &&& h.auth_kind == "password"@ ==> after[n + 1] == (SpanModel::Translated {
                lang,
                key: "editor_auth_password"@,
                args: Seq::empty(),
            })
            &&& h.auth_kind == "key"@ ==> after[n + 1] == (SpanModel::Translated {
                lang,
                key: "editor_auth_key_file"@,
                args: Seq::empty(),
            })
            &&& after[n + 2] == SpanModel::Plain("\t"@ + h.name)
            &&& after[n + 3] == SpanModel::Plain("\n"@)
        }),
        OutputModel::Hosts(Seq::empty()).text(lang) == seq![
            SpanModel::Translated { lang, key: "cli_hosts_empty"@, args: Seq::empty() },
            SpanModel::Plain("\n"@),
        ],
{
    assert(hosts.push(h).drop_last() =~= hosts);
    let before = host_lines(hosts, lang);
    let after = host_lines(hosts.push(h), lang);
    assert(after.take(before.len() as int) =~= before);
    reveal_strlit("password");
    reveal_strlit("key");
    assert("password"@.len() != "key"@.len());
    assert(OutputModel::Hosts(Seq::empty()).text(lang) =~= seq![
        SpanModel::Translated { lang, key: "cli_hosts_empty"@, args: Seq::empty() },
        SpanModel::Plain("\n"@),
    ]);
}

/// A list for people has a line for each session, in order, with its id, size,
/// state and process; an empty one says so.
pub proof fn law_sessions_for_people(sessions: Seq<SessionModel>, s: SessionModel, lang: Lang)
    ensures
        ({
            let before = if sessions.len() == 0 {
                Seq::empty()
            } else {
                OutputModel::Sessions(sessions).text(lang)
            };
            let after = OutputModel::Sessions(sessions.push(s)).text(lang);
            let n = before.len() as int;
            let state = if s.alive {
                "cli_session_alive"@
            } else {
                "cli_session_closed"@
            };
            &&& after.len() == n + 4
            &&& after.take(n) == before
            &&& after[n] == SpanModel::Plain(
                s.session_id + "\t"@ + strings::decimal(s.cols as nat) + "×"@ + strings::decimal(
                    s.rows as nat,
                ) + "\t"@,
            )
            &&& after[n + 1] == (SpanModel::Translated { lang, key: state, args: Seq::empty() })
            &&& s.foreground_process is Some ==> after[n + 2] == SpanModel::Plain(
                "\t"@ + s.foreground_process->0,
            )
            &&& s.foreground_process is None ==> after[n + 2] == SpanModel::Plain("\t"@ + "—"@)
            &&& after[n + 3] == SpanModel::Plain("\n"@)
        }),
        OutputModel::Sessions(Seq::empty()).text(lang) == seq![
            SpanModel::Translated { lang, key: "cli_sessions_empty"@, args: Seq::empty() },
            SpanModel::Plain("\n"@),
        ],
{
    assert(sessions.push(s).drop_last() =~= sessions);
    let before = session_lines(sessions, lang);
    let after = session_lines(sessions.push(s), lang);
    assert(after.take(before.len() as int) =~= before);
    assert(OutputModel::Sessions(Seq::empty()).text(lang) =~= seq![
        SpanModel::Translated { lang, key: "cli_sessions_empty"@, args: Seq::empty() },
        SpanModel::Plain("\n"@),
    ]);
}

/// People see the lines of a screen as they are, one under the other.
pub proof fn law_screen_for_people(screen: ScreenModel, lang: Lang)
    ensures
        OutputModel::Screen(screen).text(lang) == seq![
            SpanModel::Plain(strings::joined(screen.lines, "\n"@)),
        ],
{
}

/// The state of the vault is told by its own word: missing, locked or open; how
/// a host is logged in to by a word of its own, or by the name that was given.
pub proof fn law_words_for_people(s: StatusModel, kind: Seq<char>)
    ensures
        !s.vault_exists ==> vault_key(s) == "cli_vault_missing"@,
        s.vault_exists && s.locked ==> vault_key(s) == "cli_vault_locked"@,
        s.vault_exists && !s.locked ==> vault_key(s) == "cli_vault_unlocked"@,
        auth_arg("password"@) == ArgModel::Key("editor_auth_password"@),
        auth_arg("key"@) == ArgModel::Key("editor_auth_key_file"@),
        kind != "password"@ && kind != "key"@ ==> auth_arg(kind) == ArgModel::Plain(kind),
        or_dash(None) == "—"@,
        or_dash(Some(kind)) == kind,
{
    reveal_strlit("password");
    reveal_strlit("key");
    assert("password"@.len() != "key"@.len());
}

/// The report on the installation names the directory of the configuration, the
/// state of the vault and the number of hosts, a line for each.
pub proof fn law_report_on_the_installation(s: StatusModel, dir: Seq<char>, lang: Lang)
    ensures
        ({
            let t = s.doctor_text(dir, lang);
            let end = SpanModel::Plain("\n"@);
            &&& t.len() == 6
            &&& t[0] == (SpanModel::Translated {
                lang,
                key: "cli_doctor_daemon_ok"@,
                args: Seq::empty(),
            })
            &&& t[2] == (SpanModel::Translated {
                lang,
                key: "cli_doctor_config_dir"@,
                args: seq![ArgModel::Plain(dir)],
            })
            &&& t[4] == (SpanModel::Translated {
                lang,
                key: "cli_doctor_vault"@,
                args: seq![
                    ArgModel::Key(vault_key(s)),
                    ArgModel::Plain(strings::decimal(s.host_count)),
                ],
            })
            &&& t[1] == end && t[3] == end && t[5] == end
        }),
{
}

} // verus!
