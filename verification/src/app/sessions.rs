//! Opening sessions, and taking them up again after a reconnect: which request
//! comes next, by what the one before it came to.
use vstd::prelude::*;

use crate::app::message;
use crate::app::message::{Mapping, MappingModel, Snapshot, SnapshotModel};
use crate::app::reply;
use crate::app::reply::{CallError, ErrorModel};
use crate::app::terminal;
use crate::json;
use crate::json::{Json, JsonModel};
use crate::strings;

verus! {

/// A request and its body.
#[derive(Debug)]
pub struct Request {
    pub kind: String,
    pub body: Json,
}

#[verifier::ext_equal]
pub struct RequestModel {
    pub kind: Seq<char>,
    pub body: JsonModel,
}

impl View for Request {
    type V = RequestModel;

    open spec fn view(&self) -> RequestModel {
        RequestModel { kind: self.kind@, body: self.body@ }
    }
}

// ---------------------------------------------------------------------------
// Opening one session
// ---------------------------------------------------------------------------

/// A session that is being opened, on this machine or on a host of the vault.
#[derive(Debug)]
pub struct Opening {
    pub host_id: Option<String>,
    /// The session, once it is open and is to be subscribed to.
    pub opened: Option<String>,
}

#[verifier::ext_equal]
pub struct OpeningModel {
    pub host_id: Option<Seq<char>>,
    pub opened: Option<Seq<char>>,
}

impl View for Opening {
    type V = OpeningModel;

    open spec fn view(&self) -> OpeningModel {
        OpeningModel {
            host_id: strings::opt_text(self.host_id),
            opened: strings::opt_text(self.opened),
        }
    }
}

/// What comes next while a session is being opened.
#[derive(Debug)]
pub enum OpeningStep {
    Send(Request, Opening),
    Opened(String),
    Failed(String),
}

#[verifier::ext_equal]
pub enum OpeningStepModel {
    Send(RequestModel, OpeningModel),
    Opened(Seq<char>),
    Failed(Seq<char>),
}

impl View for OpeningStep {
    type V = OpeningStepModel;

    open spec fn view(&self) -> OpeningStepModel {
        match self {
            OpeningStep::Send(request, opening) => OpeningStepModel::Send(request@, opening@),
            OpeningStep::Opened(session_id) => OpeningStepModel::Opened(session_id@),
            OpeningStep::Failed(e) => OpeningStepModel::Failed(e@),
        }
    }
}

/// The request that opens a session of forty rows and a hundred columns.
pub open spec fn open_request(host_id: Option<Seq<char>>) -> RequestModel {
    match host_id {
        None => RequestModel {
            kind: "OpenLocalSession"@,
            body: JsonModel::Object(
                seq![("cols"@, JsonModel::Unsigned(100)), ("rows"@, JsonModel::Unsigned(40))],
            ),
        },
        Some(id) => RequestModel {
            kind: "OpenSshSession"@,
            body: JsonModel::Object(
                seq![
                    ("cols"@, JsonModel::Unsigned(100)),
                    ("host_id"@, JsonModel::Str(id)),
                    ("rows"@, JsonModel::Unsigned(40)),
                ],
            ),
        },
    }
}

/// The request that subscribes to a session.
pub open spec fn subscribe_request(session_id: Seq<char>) -> RequestModel {
    RequestModel { kind: "SubscribeSession"@, body: json::one_text("session_id"@, session_id) }
}

/// The request that gives a session a size.
pub open spec fn size_request(session_id: Seq<char>, cols: u16, rows: u16) -> RequestModel {
    RequestModel {
        kind: "ResizeSession"@,
        body: terminal::resize_request(session_id, cols, rows),
    }
}

/// How the opening of a session begins.
pub open spec fn opening_begun(host_id: Option<Seq<char>>) -> OpeningModel {
    OpeningModel { host_id, opened: None }
}

/// What begins the report of a session that did not open.
pub open spec fn open_failed(host_id: Option<Seq<char>>) -> Seq<char> {
    if host_id is Some {
        "打开 SSH 会话失败: "@
    } else {
        "打开会话失败: "@
    }
}

/// The report of a reply without a session.
pub open spec fn session_missing(host_id: Option<Seq<char>>) -> Seq<char> {
    if host_id is Some {
        "OpenSshSession 响应缺少 session_id"@
    } else {
        "OpenLocalSession 响应缺少 session_id"@
    }
}

/// What begins the report of a session that could not be subscribed to.
pub open spec fn subscribe_failed(host_id: Option<Seq<char>>) -> Seq<char> {
    if host_id is Some {
        "订阅 SSH 会话失败: "@
    } else {
        "订阅失败: "@
    }
}

impl OpeningModel {
    /// What comes next, by what the last request came to.
    pub open spec fn next(self, res: Result<JsonModel, ErrorModel>) -> OpeningStepModel {
        match (self.opened, res) {
            (None, Ok(value)) => match value.text_at("session_id"@) {
                Some(id) => OpeningStepModel::Send(
                    subscribe_request(id),
                    OpeningModel { opened: Some(id), ..self },
                ),
                None => OpeningStepModel::Failed(session_missing(self.host_id)),
            },
            (None, Err(e)) => OpeningStepModel::Failed(open_failed(self.host_id) + e.message),
            (Some(id), Ok(_)) => OpeningStepModel::Opened(id),
            (Some(_), Err(e)) => OpeningStepModel::Failed(
                subscribe_failed(self.host_id) + e.message,
            ),
        }
    }
}

/// The request that subscribes to a session.
fn subscribe(session_id: &str) -> (res: Request)
    ensures
        res@ == subscribe_request(session_id@),
{
    Request {
        kind: "SubscribeSession".to_string(),
        body: json::text_object("session_id", session_id),
    }
}

fn set_size(session_id: &str, cols: u16, rows: u16) -> (res: Request)
    ensures
        res@ == size_request(session_id@, cols, rows),
{
    Request {
        kind: "ResizeSession".to_string(),
        body: terminal::resize_body(session_id, cols, rows),
    }
}

impl Opening {
    /// Begins to open a session.
    pub fn begin(host_id: Option<String>) -> (res: (Request, Opening))
        ensures
            res.0@ == open_request(strings::opt_text(host_id)),
            res.1@ == opening_begun(strings::opt_text(host_id)),
    {
        let mut members: Vec<(String, Json)> = Vec::new();
        members.push(("cols".to_string(), Json::Unsigned(100)));
        let kind = match &host_id {
            Some(id) => {
                members.push(("host_id".to_string(), Json::Str(id.clone())));
                "OpenSshSession".to_string()
            },
            None => "OpenLocalSession".to_string(),
        };
        members.push(("rows".to_string(), Json::Unsigned(40)));
        proof {
            json::lemma_object(members);
            assert(json::member_models(members@) =~= open_request(
                strings::opt_text(host_id),
            ).body->Object_0);
        }
        (Request { kind, body: Json::Object(members) }, Opening { host_id, opened: None })
    }

    /// What comes next, by what the last request came to.
    pub fn next(self, res: Result<Json, CallError>) -> (step: OpeningStep)
        ensures
            step@ == self@.next(reply::outcome(res)),
    {
        match self.opened {
            None => match res {
                Ok(value) => match value.string_at("session_id") {
                    Some(id) => OpeningStep::Send(
                        subscribe(id.as_str()),
                        Opening { host_id: self.host_id, opened: Some(id) },
                    ),
                    None => OpeningStep::Failed(
                        if self.host_id.is_some() {
                            "OpenSshSession 响应缺少 session_id".to_string()
                        } else {
                            "OpenLocalSession 响应缺少 session_id".to_string()
                        },
                    ),
                },
                Err(e) => OpeningStep::Failed(
                    if self.host_id.is_some() {
                        strings::concat("打开 SSH 会话失败: ", e.message.as_str())
                    } else {
                        strings::concat("打开会话失败: ", e.message.as_str())
                    },
                ),
            },
            Some(id) => match res {
                Ok(_) => OpeningStep::Opened(id),
                Err(e) => OpeningStep::Failed(
                    if self.host_id.is_some() {
                        strings::concat("订阅 SSH 会话失败: ", e.message.as_str())
                    } else {
                        strings::concat("订阅失败: ", e.message.as_str())
                    },
                ),
            },
        }
    }
}

// ---------------------------------------------------------------------------
// Taking sessions up again
// ---------------------------------------------------------------------------

/// What is being done for the session that is being taken up again.
#[derive(Debug)]
pub enum Stage {
    /// It is being subscribed to.
    Subscribing,
    /// It is being given its size again.
    Sizing,
    /// It is gone, and another one is being opened in its place.
    Reopening(Opening),
    /// The one in its place is being given its size.
    SizingNew(String),
}

#[verifier::ext_equal]
pub enum StageModel {
    Subscribing,
    Sizing,
    Reopening(OpeningModel),
    SizingNew(Seq<char>),
}

impl View for Stage {
    type V = StageModel;

    open spec fn view(&self) -> StageModel {
        match self {
            Stage::Subscribing => StageModel::Subscribing,
            Stage::Sizing => StageModel::Sizing,
            Stage::Reopening(opening) => StageModel::Reopening(opening@),
            Stage::SizingNew(id) => StageModel::SizingNew(id@),
        }
    }
}

/// Sessions that are being taken up again, one after another.
#[derive(Debug)]
pub struct Restoring {
    pub snapshots: Vec<Snapshot>,
    /// What became of the sessions before the current one.
    pub done: Vec<Mapping>,
    pub stage: Stage,
}

#[verifier::ext_equal]
pub struct RestoringModel {
    pub snapshots: Seq<SnapshotModel>,
    pub done: Seq<MappingModel>,
    pub stage: StageModel,
}

impl View for Restoring {
    type V = RestoringModel;

    open spec fn view(&self) -> RestoringModel {
        RestoringModel {
            snapshots: message::snapshot_models(self.snapshots@),
            done: message::mapping_models(self.done@),
            stage: self.stage@,
        }
    }
}

/// What comes next while sessions are being taken up again.
#[derive(Debug)]
pub enum RestoringStep {
    Send(Request, Restoring),
    Finished(Vec<Mapping>),
    Failed(String),
}

#[verifier::ext_equal]
pub enum RestoringStepModel {
    Send(RequestModel, RestoringModel),
    Finished(Seq<MappingModel>),
    Failed(Seq<char>),
}

impl View for RestoringStep {
    type V = RestoringStepModel;

    open spec fn view(&self) -> RestoringStepModel {
        match self {
            RestoringStep::Send(request, restoring) => RestoringStepModel::Send(
                request@,
                restoring@,
            ),
            RestoringStep::Finished(list) => RestoringStepModel::Finished(
                message::mapping_models(list@),
            ),
            RestoringStep::Failed(e) => RestoringStepModel::Failed(e@),
        }
    }
}

/// The session at the head of the sessions that are left: it is subscribed to.
/// Where none is left, all is done.
pub open spec fn from_next(snapshots: Seq<SnapshotModel>, done: Seq<MappingModel>) -> RestoringStepModel {
    if done.len() < snapshots.len() {
        RestoringStepModel::Send(
            subscribe_request(snapshots[done.len() as int].session_id),
            RestoringModel { snapshots, done, stage: StageModel::Subscribing },
        )
    } else {
        RestoringStepModel::Finished(done)
    }
}

impl RestoringModel {
    /// One session is still being taken up.
    pub open spec fn wf(self) -> bool {
        self.done.len() < self.snapshots.len()
    }

    pub open spec fn current(self) -> SnapshotModel {
        self.snapshots[self.done.len() as int]
    }

    /// The current session is done with.
    pub open spec fn settled(self, new_session_id: Seq<char>, replaced: bool) -> RestoringStepModel {
        from_next(
            self.snapshots,
            self.done.push(
                MappingModel {
                    old_session_id: self.current().session_id,
                    new_session_id,
                    replaced,
                },
            ),
        )
    }

    /// What comes next, by what the last request came to. A session that the
    /// daemon no longer has is opened anew; that a size was refused does not
    /// matter; anything else ends the work.
    pub open spec fn next(self, res: Result<JsonModel, ErrorModel>) -> RestoringStepModel {
        let s = self.current();
        match self.stage {
            StageModel::Subscribing => match res {
                Ok(_) => RestoringStepModel::Send(
                    size_request(s.session_id, s.cols, s.rows),
                    RestoringModel { stage: StageModel::Sizing, ..self },
                ),
                Err(e) => if strings::has_part(e.message, "会话不存在"@) {
                    RestoringStepModel::Send(
                        open_request(s.remote_host_id),
                        RestoringModel {
                            stage: StageModel::Reopening(opening_begun(s.remote_host_id)),
                            ..self
                        },
                    )
                } else {
                    RestoringStepModel::Failed(e.message)
                },
            },
            StageModel::Sizing => self.settled(s.session_id, false),
            StageModel::Reopening(opening) => match opening.next(res) {
                OpeningStepModel::Send(request, opening) => RestoringStepModel::Send(
                    request,
                    RestoringModel { stage: StageModel::Reopening(opening), ..self },
                ),
                OpeningStepModel::Opened(id) => RestoringStepModel::Send(
                    size_request(id, s.cols, s.rows),
                    RestoringModel { stage: StageModel::SizingNew(id), ..self },
                ),
                OpeningStepModel::Failed(e) => RestoringStepModel::Failed(e),
            },
            StageModel::SizingNew(id) => self.settled(id, true),
        }
    }
}

impl Restoring {
    fn proceed(snapshots: Vec<Snapshot>, done: Vec<Mapping>) -> (step: RestoringStep)
        ensures
            step@ == from_next(
                message::snapshot_models(snapshots@),
                message::mapping_models(done@),
            ),
    {
        if done.len() < snapshots.len() {
            let request = subscribe(snapshots[done.len()].session_id.as_str());
            RestoringStep::Send(request, Restoring { snapshots, done, stage: Stage::Subscribing })
        } else {
            RestoringStep::Finished(done)
        }
    }

    /// Begins to take sessions up again.
    pub fn begin(snapshots: Vec<Snapshot>) -> (step: RestoringStep)
        ensures
            step@ == from_next(message::snapshot_models(snapshots@), Seq::empty()),
    {
        let done: Vec<Mapping> = Vec::new();
        proof {
            assert(message::mapping_models(done@) =~= Seq::<MappingModel>::empty());
        }
        Restoring::proceed(snapshots, done)
    }

    fn settle(self, new_session_id: String, replaced: bool) -> (step: RestoringStep)
        requires
            self@.wf(),
        ensures
            step@ == self@.settled(new_session_id@, replaced),
    {
        let mut done = self.done;
        let old_session_id = self.snapshots[done.len()].session_id.clone();
        let ghost before = done@;
        let mapping = Mapping { old_session_id, new_session_id, replaced };
        done.push(mapping);
        proof {
            assert(message::mapping_models(done@) =~= message::mapping_models(before).push(
                mapping@,
            ));
        }
        Restoring::proceed(self.snapshots, done)
    }

    /// What comes next, by what the last request came to.
    pub fn next(self, res: Result<Json, CallError>) -> (step: RestoringStep)
        requires
            self@.wf(),
        ensures
            step@ == self@.next(reply::outcome(res)),
            step matches RestoringStep::Send(_, restoring) ==> restoring@.wf(),
    {
        let i: usize = self.done.len();
        let session_id = self.snapshots[i].session_id.clone();
        let cols: u16 = self.snapshots[i].cols;
        let rows: u16 = self.snapshots[i].rows;
        match self.stage {
            Stage::Subscribing => match res {
                Ok(_) => RestoringStep::Send(
                    set_size(session_id.as_str(), cols, rows),
                    Restoring { snapshots: self.snapshots, done: self.done, stage: Stage::Sizing },
                ),
                Err(e) => if strings::contains_text(e.message.as_str(), "会话不存在") {
                    let host_id = crate::text::clone_opt_string(&self.snapshots[i].remote_host_id);
                    let (request, opening) = Opening::begin(host_id);
                    RestoringStep::Send(
                        request,
                        Restoring {
                            snapshots: self.snapshots,
                            done: self.done,
                            stage: Stage::Reopening(opening),
                        },
                    )
                } else {
                    RestoringStep::Failed(e.message)
                },
            },
            Stage::Sizing => {
                let rest = Restoring {
                    snapshots: self.snapshots,
                    done: self.done,
                    stage: Stage::Sizing,
                };
                rest.settle(session_id, false)
            },
            Stage::Reopening(opening) => match opening.next(res) {
                OpeningStep::Send(request, opening) => RestoringStep::Send(
                    request,
                    Restoring {
                        snapshots: self.snapshots,
                        done: self.done,
                        stage: Stage::Reopening(opening),
                    },
                ),
                OpeningStep::Opened(id) => RestoringStep::Send(
                    set_size(id.as_str(), cols, rows),
                    Restoring {
                        snapshots: self.snapshots,
                        done: self.done,
                        stage: Stage::SizingNew(id),
                    },
                ),
                OpeningStep::Failed(e) => RestoringStep::Failed(e),
            },
            Stage::SizingNew(id) => {
                let rest = Restoring {
                    snapshots: self.snapshots,
                    done: self.done,
                    stage: Stage::Sizing,
                };
                rest.settle(id, true)
            },
        }
    }
}

// ---------------------------------------------------------------------------
// Laws
// ---------------------------------------------------------------------------

/// What came of taking up sessions when every request has been answered by
/// `replies`, in order; nothing while requests are still open.
pub open spec fn run(step: RestoringStepModel, replies: Seq<Result<JsonModel, ErrorModel>>) -> RestoringStepModel
    decreases replies.len(),
{
    if replies.len() == 0 {
        step
    } else {
        match run(step, replies.drop_last()) {
            RestoringStepModel::Send(_, state) => state.next(replies.last()),
            other => other,
        }
    }
}

/// The first sessions have been taken up, in order, each under its old id; one
/// that was not replaced keeps it.
pub open spec fn maps_first(snapshots: Seq<SnapshotModel>, done: Seq<MappingModel>) -> bool {
    &&& done.len() <= snapshots.len()
    &&& forall|i: int|
        0 <= i < done.len() ==> (#[trigger] done[i]).old_session_id == snapshots[i].session_id && (
        !done[i].replaced ==> done[i].new_session_id == done[i].old_session_id)
}

/// However the daemon answers, the sessions are taken up in order, and once
/// the work has ended well each of them has been taken up exactly once: under
/// its own id, or replaced by another one.
pub proof fn law_every_session_is_taken_up(
    snapshots: Seq<SnapshotModel>,
    replies: Seq<Result<JsonModel, ErrorModel>>,
)
    ensures
        match run(from_next(snapshots, Seq::empty()), replies) {
            RestoringStepModel::Send(_, state) => state.snapshots == snapshots && state.wf()
                && maps_first(snapshots, state.done),
            RestoringStepModel::Finished(done) => done.len() == snapshots.len() && maps_first(
                snapshots,
                done,
            ),
            RestoringStepModel::Failed(_) => true,
        },
    decreases replies.len(),
{
    if replies.len() > 0 {
        law_every_session_is_taken_up(snapshots, replies.drop_last());
    }
}

/// A session opens on this machine, or on the host that was asked for, with a
/// hundred columns and forty rows; then it is subscribed to under the id that
/// the daemon gave it, and then it is open.
pub proof fn law_session_is_opened_and_subscribed(
    host: Option<Seq<char>>,
    reply: JsonModel,
    other: JsonModel,
    id: Seq<char>,
    e: ErrorModel,
)
    requires
        reply.text_at("session_id"@) == Some(id),
    ensures
        ({
            let size = |key: Seq<char>, n: nat| (key, JsonModel::Unsigned(n));
            &&& open_request(None) == (RequestModel {
                kind: "OpenLocalSession"@,
                body: JsonModel::Object(seq![size("cols"@, 100), size("rows"@, 40)]),
            })
            &&& open_request(Some(id)) == (RequestModel {
                kind: "OpenSshSession"@,
                body: JsonModel::Object(
                    seq![
                        size("cols"@, 100),
                        ("host_id"@, JsonModel::Str(id)),
                        size("rows"@, 40),
                    ],
                ),
            })
        }),
        ({
            let step = opening_begun(host).next(Ok(reply));
            &&& step matches OpeningStepModel::Send(request, state) && request == (RequestModel {
                kind: "SubscribeSession"@,
                body: JsonModel::Object(seq![("session_id"@, JsonModel::Str(id))]),
            }) && state.next(Ok(other)) == OpeningStepModel::Opened(id) && state.next(Err(e))
                is Failed
            &&& opening_begun(host).next(Err(e)) is Failed
        }),
        other.text_at("session_id"@) is None ==> opening_begun(host).next(Ok(other)) is Failed,
{
}

/// A session that the daemon still has is subscribed to and gets its size; one
/// that it no longer has is opened anew where it was; any other error ends the
/// work.
pub proof fn law_session_is_taken_up(r: RestoringModel, reply: JsonModel, e: ErrorModel)
    requires
        r.wf(),
        r.stage is Subscribing,
    ensures
        ({
            let s = r.snapshots[r.done.len() as int];
            &&& r.next(Ok(reply)) matches RestoringStepModel::Send(request, state) && request
                == (RequestModel {
                kind: "ResizeSession"@,
                body: JsonModel::Object(
                    seq![
                        ("cols"@, JsonModel::Unsigned(s.cols as nat)),
                        ("rows"@, JsonModel::Unsigned(s.rows as nat)),
                        ("session_id"@, JsonModel::Str(s.session_id)),
                    ],
                ),
            }) && state.done == r.done
            &&& strings::has_part(e.message, "会话不存在"@) ==> (r.next(Err(e)) matches
                RestoringStepModel::Send(request, state) && request == open_request(
                s.remote_host_id,
            ) && state.done == r.done)
            &&& !strings::has_part(e.message, "会话不存在"@) ==> r.next(Err(e))
                == RestoringStepModel::Failed(e.message)
        }),
{
}

} // verus!
