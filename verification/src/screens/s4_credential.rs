//! The editor of a host.
use vstd::prelude::*;

use crate::json;
use crate::json::{Json, JsonModel};
use crate::strings;
use crate::text;
use crate::text::{I18n, SpanModel, Text};

verus! {

/// Whether a host is added or edited.
#[derive(Debug, PartialEq)]
pub enum EditorMode {
    Add,
    Edit { host_id: String },
}

/// How the user proves who they are.
#[derive(Debug, Clone, Copy, PartialEq, Eq, Structural)]
pub enum AuthKind {
    Password,
    KeyFile,
    KeyInline,
}

/// A choice of how to authenticate.
#[derive(Debug, PartialEq)]
pub struct AuthKindItem {
    pub kind: AuthKind,
    pub label: Text,
}

#[derive(Debug)]
pub struct State {
    pub mode: EditorMode,
    pub name: String,
    pub host: String,
    pub user: String,
    pub port: String,
    pub tags: String,
    pub group: String,
    pub color: String,
    pub password: String,
    pub auth_kind: AuthKind,
    pub private_key_path: String,
    pub inline_key: String,
    pub key_passphrase: String,
    pub credential_dirty: bool,
    pub notes: String,
    pub saving: bool,
    pub error: Option<Text>,
    /// The password of an edited host was emptied.
    pub password_cleared: bool,
}

#[verifier::ext_equal]
pub struct StateModel {
    /// The host that is edited; `None` where one is added.
    pub host_id: Option<Seq<char>>,
    pub name: Seq<char>,
    pub host: Seq<char>,
    pub user: Seq<char>,
    pub port: Seq<char>,
    pub tags: Seq<char>,
    pub group: Seq<char>,
    pub color: Seq<char>,
    pub password: Seq<char>,
    pub auth_kind: AuthKind,
    pub private_key_path: Seq<char>,
    pub inline_key: Seq<char>,
    pub key_passphrase: Seq<char>,
    pub credential_dirty: bool,
    pub notes: Seq<char>,
    pub saving: bool,
    pub error: Option<Seq<SpanModel>>,
    pub password_cleared: bool,
}

/// The host that is edited.
pub open spec fn edited(mode: EditorMode) -> Option<Seq<char>> {
    match mode {
        EditorMode::Add => None,
        EditorMode::Edit { host_id } => Some(host_id@),
    }
}

impl View for State {
    type V = StateModel;

    open spec fn view(&self) -> StateModel {
        StateModel {
            host_id: edited(self.mode),
            name: self.name@,
            host: self.host@,
            user: self.user@,
            port: self.port@,
            tags: self.tags@,
            group: self.group@,
            color: self.color@,
            password: self.password@,
            auth_kind: self.auth_kind,
            private_key_path: self.private_key_path@,
            inline_key: self.inline_key@,
            key_passphrase: self.key_passphrase@,
            credential_dirty: self.credential_dirty,
            notes: self.notes@,
            saving: self.saving,
            error: text::opt_spans(self.error),
            password_cleared: self.password_cleared,
        }
    }
}

/// The text, or an empty one.
pub open spec fn or_empty(s: Option<Seq<char>>) -> Seq<char> {
    match s {
        Some(text) => text,
        None => Seq::empty(),
    }
}

/// The text, where it is not empty.
pub open spec fn non_empty(s: Seq<char>) -> Option<Seq<char>> {
    if s.len() == 0 {
        None
    } else {
        Some(s)
    }
}

/// The way of authentication that a name of the daemon stands for.
pub open spec fn auth_kind_of(name: Seq<char>) -> AuthKind {
    if name == "key"@ {
        AuthKind::KeyFile
    } else if name == "key_inline"@ {
        AuthKind::KeyInline
    } else {
        AuthKind::Password
    }
}

/// The tags that a text lists between commas, without blank ones.
pub open spec fn listed_tags(parts: Seq<Seq<char>>) -> Seq<Seq<char>>
    decreases parts.len(),
{
    if parts.len() == 0 {
        Seq::empty()
    } else {
        let before = listed_tags(parts.drop_last());
        let tag = strings::trimmed(parts.last());
        if tag.len() == 0 {
            before
        } else {
            before.push(tag)
        }
    }
}

impl StateModel {
    /// The editor of a new host.
    pub open spec fn adding() -> StateModel {
        StateModel {
            host_id: None,
            name: Seq::empty(),
            host: Seq::empty(),
            user: "root"@,
            port: "22"@,
            tags: Seq::empty(),
            group: Seq::empty(),
            color: Seq::empty(),
            password: Seq::empty(),
            auth_kind: AuthKind::Password,
            private_key_path: Seq::empty(),
            inline_key: Seq::empty(),
            key_passphrase: Seq::empty(),
            credential_dirty: true,
            notes: Seq::empty(),
            saving: false,
            error: None,
            password_cleared: false,
        }
    }

    /// The editor of a host of the vault.
    pub open spec fn editing(
        host_id: Seq<char>,
        name: Seq<char>,
        host: Seq<char>,
        user: Seq<char>,
        port: u16,
        tags: Seq<Seq<char>>,
        group: Option<Seq<char>>,
        color: Option<Seq<char>>,
        auth_kind: Seq<char>,
        notes: Option<Seq<char>>,
    ) -> StateModel {
        StateModel {
            host_id: Some(host_id),
            name,
            host,
            user,
            port: strings::decimal(port as nat),
            tags: strings::joined(tags, ", "@),
            group: or_empty(group),
            color: or_empty(color),
            auth_kind: auth_kind_of(auth_kind),
            credential_dirty: false,
            notes: or_empty(notes),
            ..StateModel::adding()
        }
    }

    /// The credential that the way of authentication needs.
    pub open spec fn credential(self) -> Seq<char> {
        match self.auth_kind {
            AuthKind::Password => self.password,
            AuthKind::KeyFile => self.private_key_path,
            AuthKind::KeyInline => self.inline_key,
        }
    }

    /// The host can be saved: all that it needs is there, and the credential
    /// too, unless that of an edited host stays as it is.
    pub open spec fn can_save(self) -> bool {
        &&& !self.saving
        &&& self.name.len() > 0
        &&& self.host.len() > 0
        &&& self.user.len() > 0
        &&& strings::number_up_to(self.port, u16::MAX as nat) is Some
        &&& (!self.credential_dirty && self.host_id is Some) || self.credential().len() > 0
    }

    /// The port that is saved.
    pub open spec fn saved_port(self) -> nat {
        match strings::number_up_to(self.port, u16::MAX as nat) {
            Some(n) => n,
            None => 22,
        }
    }

    /// The tags that are saved.
    pub open spec fn saved_tags(self) -> Seq<Seq<char>> {
        listed_tags(strings::pieces(self.tags, ','))
    }

    /// The credential that is saved; `None` where it stays as it is.
    pub open spec fn saved_auth(self) -> Option<JsonModel> {
        if !self.credential_dirty {
            None
        } else {
            Some(
                match self.auth_kind {
                    AuthKind::Password => JsonModel::Object(
                        seq![
                            ("kind"@, JsonModel::Str("password"@)),
                            ("password"@, JsonModel::Str(self.password)),
                        ],
                    ),
                    AuthKind::KeyFile => JsonModel::Object(
                        seq![
                            ("kind"@, JsonModel::Str("key"@)),
                            ("passphrase"@, json::text_or_null(non_empty(self.key_passphrase))),
                            ("private_key_path"@, JsonModel::Str(self.private_key_path)),
                        ],
                    ),
                    AuthKind::KeyInline => JsonModel::Object(
                        seq![
                            ("kind"@, JsonModel::Str("key_inline"@)),
                            ("passphrase"@, json::text_or_null(non_empty(self.key_passphrase))),
                            ("private_key"@, JsonModel::Str(self.inline_key)),
                        ],
                    ),
                },
            )
        }
    }

    /// The request that saves the host.
    pub open spec fn request(self) -> JsonModel {
        JsonModel::Object(
            seq![
                (
                    "host"@,
                    JsonModel::Object(
                        seq![
                            (
                                "auth"@,
                                match self.saved_auth() {
                                    Some(auth) => auth,
                                    None => JsonModel::Null,
                                },
                            ),
                            ("color"@, JsonModel::Null),
                            ("group"@, json::text_or_null(non_empty(self.group))),
                            ("host"@, JsonModel::Str(self.host)),
                            ("id"@, json::text_or_null(self.host_id)),
                            ("name"@, JsonModel::Str(self.name)),
                            ("notes"@, json::text_or_null(non_empty(self.notes))),
                            ("password"@, JsonModel::Null),
                            ("port"@, JsonModel::Unsigned(self.saved_port())),
                            ("tags"@, json::text_array(self.saved_tags())),
                            ("user"@, JsonModel::Str(self.user)),
                        ],
                    ),
                ),
            ],
        )
    }
}

fn some_if_filled(s: &String) -> (res: Option<String>)
    ensures
        strings::opt_text(res) == non_empty(s@),
{
    if s.as_str().is_empty() {
        None
    } else {
        Some(s.clone())
    }
}

/// The choices of how to authenticate.
pub fn auth_items(i18n: &I18n) -> (res: Vec<AuthKindItem>)
    ensures
        res@.len() == 3,
        res@[0].kind == AuthKind::Password && res@[0].label@ == text::tr(
            i18n.lang,
            "editor_auth_password"@,
        ),
        res@[1].kind == AuthKind::KeyFile && res@[1].label@ == text::tr(
            i18n.lang,
            "editor_auth_key_file"@,
        ),
        res@[2].kind == AuthKind::KeyInline && res@[2].label@ == text::tr(
            i18n.lang,
            "editor_auth_key_import"@,
        ),
{
    let mut out: Vec<AuthKindItem> = Vec::new();
    out.push(AuthKindItem { kind: AuthKind::Password, label: i18n.tr("editor_auth_password") });
    out.push(AuthKindItem { kind: AuthKind::KeyFile, label: i18n.tr("editor_auth_key_file") });
    out.push(AuthKindItem { kind: AuthKind::KeyInline, label: i18n.tr("editor_auth_key_import") });
    out
}

/// What the editor shows of its state.
#[derive(Debug, Clone, Copy, PartialEq, Eq, Structural)]
pub struct Shown {
    pub is_edit: bool,
    /// The hints tell that the credential stays as it is.
    pub keeps_credential: bool,
    pub key_imported: bool,
    pub can_save: bool,
    pub saving: bool,
}

impl State {
    /// The editor of a new host.
    pub fn new_add() -> (res: Self)
        ensures
            res@ == StateModel::adding(),
    {
        let res = State {
            mode: EditorMode::Add,
            name: String::new(),
            host: String::new(),
            user: "root".to_string(),
            port: "22".to_string(),
            tags: String::new(),
            group: String::new(),
            color: String::new(),
            password: String::new(),
            auth_kind: AuthKind::Password,
            private_key_path: String::new(),
            inline_key: String::new(),
            key_passphrase: String::new(),
            credential_dirty: true,
            notes: String::new(),
            saving: false,
            error: None,
            password_cleared: false,
        };
        proof {
            assert(res@ =~= StateModel::adding());
        }
        res
    }

    /// The editor of a host of the vault. Its credential is not shown, and
    /// stays as it is while nothing is typed for it.
    pub fn new_edit(
        host_id: String,
        name: String,
        host: String,
        user: String,
        port: u16,
        tags: Vec<String>,
        group: Option<String>,
        color: Option<String>,
        auth_kind: String,
        notes: Option<String>,
    ) -> (res: Self)
        ensures
            res@ == StateModel::editing(
                host_id@,
                name@,
                host@,
                user@,
                port,
                strings::texts(tags@),
                strings::opt_text(group),
                strings::opt_text(color),
                auth_kind@,
                strings::opt_text(notes),
            ),
    {
        let kind = if strings::text_eq(auth_kind.as_str(), "key") {
            AuthKind::KeyFile
        } else if strings::text_eq(auth_kind.as_str(), "key_inline") {
            AuthKind::KeyInline
        } else {
            AuthKind::Password
        };
        let mut res = State::new_add();
        res.mode = EditorMode::Edit { host_id };
        res.name = name;
        res.host = host;
        res.user = user;
        res.port = strings::decimal_text(port as u64);
        res.tags = strings::join(&tags, ", ");
        res.group = string_or_empty(group);
        res.color = string_or_empty(color);
        res.auth_kind = kind;
        res.credential_dirty = false;
        res.notes = string_or_empty(notes);
        res
    }

    /// What the editor shows.
    pub fn shown(&self) -> (res: Shown)
        ensures
            res.is_edit == self@.host_id is Some,
            res.keeps_credential == (self@.host_id is Some && !self.credential_dirty),
            res.key_imported == (self@.inline_key.len() > 0),
            res.can_save == self@.can_save(),
            res.saving == self.saving,
    {
        let is_edit: bool = match self.mode {
            EditorMode::Edit { .. } => true,
            EditorMode::Add => false,
        };
        let filled: bool = match self.auth_kind {
            AuthKind::Password => !self.password.as_str().is_empty(),
            AuthKind::KeyFile => !self.private_key_path.as_str().is_empty(),
            AuthKind::KeyInline => !self.inline_key.as_str().is_empty(),
        };
        let can_save: bool = !self.saving && !self.name.as_str().is_empty()
            && !self.host.as_str().is_empty() && !self.user.as_str().is_empty()
            && strings::parse_up_to(self.port.as_str(), 65535).is_some() && ((
        !self.credential_dirty && is_edit) || filled);
        Shown {
            is_edit,
            keeps_credential: is_edit && !self.credential_dirty,
            key_imported: !self.inline_key.as_str().is_empty(),
            can_save,
            saving: self.saving,
        }
    }

    /// The credential that is saved; `None` where it stays as it is.
    fn auth_json(&self) -> (res: Option<Json>)
        ensures
            match res {
                Some(auth) => self@.saved_auth() == Some(auth@),
                None => self@.saved_auth() == None::<JsonModel>,
            },
    {
        if !self.credential_dirty {
            return None;
        }
        let mut members: Vec<(String, Json)> = Vec::new();
        let passphrase = json::opt_text_json(some_if_filled(&self.key_passphrase));
        match self.auth_kind {
            AuthKind::Password => {
                members.push(("kind".to_string(), Json::Str("password".to_string())));
                members.push(("password".to_string(), Json::Str(self.password.clone())));
            },
            AuthKind::KeyFile => {
                members.push(("kind".to_string(), Json::Str("key".to_string())));
                members.push(("passphrase".to_string(), passphrase));
                members.push(
                    ("private_key_path".to_string(), Json::Str(self.private_key_path.clone())),
                );
            },
            AuthKind::KeyInline => {
                members.push(("kind".to_string(), Json::Str("key_inline".to_string())));
                members.push(("passphrase".to_string(), passphrase));
                members.push(("private_key".to_string(), Json::Str(self.inline_key.clone())));
            },
        }
        proof {
            json::lemma_object(members);
            assert(json::member_models(members@) =~= self@.saved_auth()->0->Object_0);
        }
        Some(Json::Object(members))
    }

    /// The tags that are saved.
    fn tag_list(&self) -> (res: Vec<String>)
        ensures
            strings::texts(res@) == self@.saved_tags(),
    {
        let parts = strings::split(self.tags.as_str(), ',');
        let ghost all = strings::texts(parts@);
        let mut out: Vec<String> = Vec::new();
        let mut i: usize = 0;
        proof {
            assert(strings::texts(out@) =~= listed_tags(all.take(0)));
        }
        while i < parts.len()
            invariant
                i <= parts@.len(),
                all == strings::texts(parts@),
                strings::texts(out@) == listed_tags(all.take(i as int)),
            decreases parts@.len() - i,
        {
            proof {
                assert(all.take(i + 1).drop_last() =~= all.take(i as int));
            }
            let ghost before = out@;
            let tag = strings::trim(parts[i].as_str());
            if !tag.as_str().is_empty() {
                out.push(tag);
                proof {
                    assert(strings::texts(out@) =~= strings::texts(before).push(tag@));
                }
            }
            i += 1;
        }
        proof {
            assert(all.take(i as int) =~= all);
        }
        out
    }

    /// The request that saves the host.
    pub fn save_request(&self) -> (res: Json)
        ensures
            res@ == self@.request(),
    {
        let port: u64 = match strings::parse_up_to(self.port.as_str(), 65535) {
            Some(n) => n,
            None => 22,
        };
        let id: Option<String> = match &self.mode {
            EditorMode::Edit { host_id } => Some(host_id.clone()),
            EditorMode::Add => None,
        };
        let auth = match self.auth_json() {
            Some(auth) => auth,
            None => Json::Null,
        };
        let mut host: Vec<(String, Json)> = Vec::new();
        host.push(("auth".to_string(), auth));
        host.push(("color".to_string(), Json::Null));
        host.push(("group".to_string(), json::opt_text_json(some_if_filled(&self.group))));
        host.push(("host".to_string(), Json::Str(self.host.clone())));
        host.push(("id".to_string(), json::opt_text_json(id)));
        host.push(("name".to_string(), Json::Str(self.name.clone())));
        host.push(("notes".to_string(), json::opt_text_json(some_if_filled(&self.notes))));
        host.push(("password".to_string(), Json::Null));
        host.push(("port".to_string(), Json::Unsigned(port)));
        host.push(("tags".to_string(), json::texts_json(&self.tag_list())));
        host.push(("user".to_string(), Json::Str(self.user.clone())));
        let ghost fields = host;
        let mut members: Vec<(String, Json)> = Vec::new();
        members.push(("host".to_string(), Json::Object(host)));
        proof {
            json::lemma_object(fields);
            json::lemma_object(members);
            let wanted = self@.request()->Object_0;
            assert(json::member_models(fields@) =~= wanted[0].1->Object_0);
            assert(json::member_models(members@) =~= wanted);
        }
        Json::Object(members)
    }
}

fn string_or_empty(s: Option<String>) -> (res: String)
    ensures
        res@ == or_empty(strings::opt_text(s)),
{
    match s {
        Some(text) => text,
        None => {
            let out = String::new();
            proof {
                assert(out@ =~= Seq::<char>::empty());
            }
            out
        },
    }
}

/// A host that is edited without a change keeps its port, and its credential.
pub proof fn law_unchanged_edit_keeps_port_and_credential(
    host_id: Seq<char>,
    name: Seq<char>,
    host: Seq<char>,
    user: Seq<char>,
    port: u16,
    tags: Seq<Seq<char>>,
    group: Option<Seq<char>>,
    color: Option<Seq<char>>,
    auth_kind: Seq<char>,
    notes: Option<Seq<char>>,
)
    ensures
        ({
            let s = StateModel::editing(
                host_id,
                name,
                host,
                user,
                port,
                tags,
                group,
                color,
                auth_kind,
                notes,
            );
            &&& s.saved_port() == port
            &&& s.saved_auth() is None
            &&& name.len() > 0 && host.len() > 0 && user.len() > 0 ==> s.can_save()
        }),
{
    strings::lemma_decimal_round_trip(port as nat);
}

/// The host of a request that saves one.
pub open spec fn saved_member(s: StateModel, key: Seq<char>) -> Option<JsonModel> {
    s.request().at("host"@).member(key)
}

proof fn lemma_member_skip(members: Seq<(Seq<char>, JsonModel)>, key: Seq<char>, i: int)
    requires
        0 <= i < members.len(),
        members[i].0 == key,
        forall|j: int| 0 <= j < i ==> (#[trigger] members[j]).0 != key,
    ensures
        json::member_of(members, key) == Some(members[i].1),
    decreases i,
{
    if i > 0 {
        assert(members[0].0 != key);
        assert forall|j: int| 0 <= j < i - 1 implies (#[trigger] members.skip(1)[j]).0 != key by {
            assert(members[j + 1].0 != key);
        }
        lemma_member_skip(members.skip(1), key, i - 1);
    }
}

/// The members of the host in a request that saves one: what was typed, and
/// null where nothing was; nothing of the host is lost, and nothing is made up.
pub proof fn law_save_sends_what_was_typed(s: StateModel)
    ensures
        saved_member(s, "name"@) == Some(JsonModel::Str(s.name)),
        saved_member(s, "host"@) == Some(JsonModel::Str(s.host)),
        saved_member(s, "user"@) == Some(JsonModel::Str(s.user)),
        saved_member(s, "group"@) == Some(
            if s.group.len() > 0 {
                JsonModel::Str(s.group)
            } else {
                JsonModel::Null
            },
        ),
        saved_member(s, "notes"@) == Some(
            if s.notes.len() > 0 {
                JsonModel::Str(s.notes)
            } else {
                JsonModel::Null
            },
        ),
        saved_member(s, "id"@) == Some(
            match s.host_id {
                Some(id) => JsonModel::Str(id),
                None => JsonModel::Null,
            },
        ),
        saved_member(s, "port"@) == Some(JsonModel::Unsigned(s.saved_port())),
        saved_member(s, "password"@) == Some(JsonModel::Null),
        !s.credential_dirty ==> saved_member(s, "auth"@) == Some(JsonModel::Null),
        s.credential_dirty ==> saved_member(s, "auth"@) == s.saved_auth(),
        saved_member(s, "tags"@) matches Some(JsonModel::Array(tags)) && tags.len()
            == s.saved_tags().len() && forall|i: int|
            0 <= i < tags.len() ==> #[trigger] tags[i] == JsonModel::Str(s.saved_tags()[i]),
{
    reveal_strlit("host");
    reveal_strlit("auth");
    reveal_strlit("color");
    reveal_strlit("group");
    reveal_strlit("id");
    reveal_strlit("name");
    reveal_strlit("notes");
    reveal_strlit("password");
    reveal_strlit("port");
    reveal_strlit("tags");
    reveal_strlit("user");
    let outer = s.request()->Object_0;
    lemma_member_skip(outer, "host"@, 0);
    let members = s.request().at("host"@)->Object_0;
    assert(members.len() == 11);
    assert("auth"@[0] == 'a' && "color"@[0] == 'c' && "group"@[0] == 'g' && "host"@[0] == 'h');
    assert("id"@[0] == 'i' && "name"@[0] == 'n' && "notes"@[0] == 'n' && "notes"@[1] == 'o');
    assert("name"@[1] == 'a' && "password"@[0] == 'p' && "port"@[0] == 'p' && "port"@[1] == 'o');
    assert("password"@[1] == 'a' && "tags"@[0] == 't' && "user"@[0] == 'u');
    lemma_member_skip(members, "auth"@, 0);
    lemma_member_skip(members, "group"@, 2);
    lemma_member_skip(members, "host"@, 3);
    lemma_member_skip(members, "id"@, 4);
    lemma_member_skip(members, "name"@, 5);
    lemma_member_skip(members, "notes"@, 6);
    lemma_member_skip(members, "password"@, 7);
    lemma_member_skip(members, "port"@, 8);
    lemma_member_skip(members, "tags"@, 9);
    lemma_member_skip(members, "user"@, 10);
}

/// A host that is opened for editing and saved without a change sends back its
/// own id, name, address, user, port, group and notes, and no credential.
pub proof fn law_unchanged_edit_sends_the_host_back(
    host_id: Seq<char>,
    name: Seq<char>,
    host: Seq<char>,
    user: Seq<char>,
    port: u16,
    tags: Seq<Seq<char>>,
    group: Option<Seq<char>>,
    color: Option<Seq<char>>,
    auth_kind: Seq<char>,
    notes: Option<Seq<char>>,
)
    ensures
        ({
            let s = StateModel::editing(
                host_id,
                name,
                host,
                user,
                port,
                tags,
                group,
                color,
                auth_kind,
                notes,
            );
            &&& saved_member(s, "id"@) == Some(JsonModel::Str(host_id))
            &&& saved_member(s, "name"@) == Some(JsonModel::Str(name))
            &&& saved_member(s, "host"@) == Some(JsonModel::Str(host))
            &&& saved_member(s, "user"@) == Some(JsonModel::Str(user))
            &&& saved_member(s, "port"@) == Some(JsonModel::Unsigned(port as nat))
            &&& saved_member(s, "auth"@) == Some(JsonModel::Null)
            &&& group is Some && group->0.len() > 0 ==> saved_member(s, "group"@) == Some(
                JsonModel::Str(group->0),
            )
            &&& group is None ==> saved_member(s, "group"@) == Some(JsonModel::Null)
            &&& notes is Some && notes->0.len() > 0 ==> saved_member(s, "notes"@) == Some(
                JsonModel::Str(notes->0),
            )
            &&& notes is None ==> saved_member(s, "notes"@) == Some(JsonModel::Null)
        }),
{
    let s = StateModel::editing(
        host_id,
        name,
        host,
        user,
        port,
        tags,
        group,
        color,
        auth_kind,
        notes,
    );
    law_save_sends_what_was_typed(s);
    strings::lemma_decimal_round_trip(port as nat);
}

/// A credential that was typed is saved under the way of authentication that
/// was chosen: the password, the path of the key, or the key itself.
pub proof fn law_typed_credential_is_saved(s: StateModel)
    requires
        s.credential_dirty,
    ensures
        s.saved_auth() is Some,
        ({
            let auth = s.saved_auth()->0;
            let passphrase = if s.key_passphrase.len() > 0 {
                JsonModel::Str(s.key_passphrase)
            } else {
                JsonModel::Null
            };
            match s.auth_kind {
                AuthKind::Password => auth.member("kind"@) == Some(JsonModel::Str("password"@))
                    && auth.member("password"@) == Some(JsonModel::Str(s.password)),
                AuthKind::KeyFile => auth.member("kind"@) == Some(JsonModel::Str("key"@))
                    && auth.member("private_key_path"@) == Some(
                    JsonModel::Str(s.private_key_path),
                ) && auth.member("passphrase"@) == Some(passphrase),
                AuthKind::KeyInline => auth.member("kind"@) == Some(JsonModel::Str("key_inline"@))
                    && auth.member("private_key"@) == Some(JsonModel::Str(s.inline_key))
                    && auth.member("passphrase"@) == Some(passphrase),
            }
        }),
{
    reveal_strlit("kind");
    reveal_strlit("password");
    reveal_strlit("passphrase");
    reveal_strlit("private_key");
    reveal_strlit("private_key_path");
    let members = s.saved_auth()->0->Object_0;
    assert("kind"@[0] == 'k' && "password"@[0] == 'p' && "passphrase"@[0] == 'p');
    assert("passphrase"@[1] == 'a' && "private_key"@[1] == 'r' && "private_key_path"@[1] == 'r');
    lemma_member_skip(members, "kind"@, 0);
    match s.auth_kind {
        AuthKind::Password => {
            lemma_member_skip(members, "password"@, 1);
        },
        AuthKind::KeyFile => {
            lemma_member_skip(members, "passphrase"@, 1);
            lemma_member_skip(members, "private_key_path"@, 2);
        },
        AuthKind::KeyInline => {
            lemma_member_skip(members, "passphrase"@, 1);
            lemma_member_skip(members, "private_key"@, 2);
        },
    }
}

/// A host can be saved where it has a name, an address, a user, a port that is
/// a number and a credential, and is not being saved; an edited one whose
/// credential was not touched needs none.
pub proof fn law_what_saving_needs(s: StateModel)
    ensures
        s.can_save() ==> s.name.len() > 0 && s.host.len() > 0 && s.user.len() > 0 && !s.saving,
        s.can_save() && (s.credential_dirty || s.host_id is None) ==> match s.auth_kind {
            AuthKind::Password => s.password.len() > 0,
            AuthKind::KeyFile => s.private_key_path.len() > 0,
            AuthKind::KeyInline => s.inline_key.len() > 0,
        },
        s.can_save() ==> strings::number_up_to(s.port, 65535) == Some(s.saved_port()),
{
}

proof fn lemma_listed_push(parts: Seq<Seq<char>>, part: Seq<char>)
    ensures
        listed_tags(parts.push(part)) == (if strings::trimmed(part).len() == 0 {
            listed_tags(parts)
        } else {
            listed_tags(parts).push(strings::trimmed(part))
        }),
{
    assert(parts.push(part).drop_last() =~= parts);
}

/// Tags are typed with commas between them: each is saved without the white
/// space around it, in order, and what is blank is not saved.
pub proof fn law_typed_tags_are_saved(s: StateModel, more: StateModel, tag: Seq<char>)
    requires
        forall|i: int| 0 <= i < tag.len() ==> #[trigger] tag[i] != ',',
        more.tags == s.tags + seq![','] + tag,
    ensures
        strings::trimmed(tag).len() > 0 ==> more.saved_tags() == s.saved_tags().push(
            strings::trimmed(tag),
        ),
        strings::trimmed(tag).len() == 0 ==> more.saved_tags() == s.saved_tags(),
        s.tags == tag && strings::trimmed(tag).len() > 0 ==> s.saved_tags() == seq![
            strings::trimmed(tag),
        ],
        s.tags.len() == 0 ==> s.saved_tags().len() == 0,
{
    strings::law_splitting_piece_by_piece(s.tags, tag, ',');
    lemma_listed_push(strings::pieces(s.tags, ','), tag);
    lemma_listed_push(Seq::empty(), tag);
    assert(Seq::<Seq<char>>::empty().push(tag) =~= seq![tag]);
    if s.tags.len() == 0 {
        let blank = Seq::<char>::empty();
        lemma_listed_push(Seq::empty(), blank);
        assert(Seq::<Seq<char>>::empty().push(blank) =~= seq![blank]);
        assert(s.tags =~= blank);
        assert(strings::trimmed(blank) =~= blank);
    }
}

proof fn lemma_shown_tags(tags: Seq<Seq<char>>)
    requires
        forall|i: int| 0 <= i < tags.len() ==> (#[trigger] tags[i]).len() > 0,
        forall|i: int| 0 <= i < tags.len() ==> strings::trimmed(#[trigger] tags[i]) == tags[i],
        forall|i: int, k: int|
            0 <= i < tags.len() && 0 <= k < tags[i].len() ==> #[trigger] tags[i][k] != ',',
    ensures
        listed_tags(strings::pieces(strings::joined(tags, ", "@), ',')) == tags,
    decreases tags.len(),
{
    reveal_strlit(", ");
    let shown = strings::joined(tags, ", "@);
    if tags.len() == 0 {
        let blank = Seq::<char>::empty();
        lemma_listed_push(Seq::empty(), blank);
        assert(Seq::<Seq<char>>::empty().push(blank) =~= seq![blank]);
        assert(strings::trimmed(blank) =~= blank);
        assert(listed_tags(Seq::empty()) =~= tags);
    } else {
        let init = tags.drop_last();
        let tag = tags.last();
        assert(tag == tags[tags.len() - 1]);
        assert forall|i: int| 0 <= i < init.len() implies init[i] == tags[i] by {}
        assert forall|k: int| 0 <= k < tag.len() implies #[trigger] tag[k] != ',' by {
            assert(tags[tags.len() - 1][k] != ',');
        }
        if tags.len() == 1 {
            assert(shown == tag);
            strings::law_splitting_piece_by_piece(Seq::empty(), tag, ',');
            lemma_listed_push(Seq::empty(), tag);
            assert(Seq::<Seq<char>>::empty().push(tag) =~= seq![tag]);
            assert(listed_tags(seq![tag]) =~= tags);
        } else {
            assert forall|i: int, k: int| 0 <= i < init.len() && 0 <= k < init[i].len() implies
                #[trigger] init[i][k] != ',' by {
                assert(tags[i][k] != ',');
            }
            lemma_shown_tags(init);
            let piece = seq![' '] + tag;
            let before = strings::joined(init, ", "@);
            assert(", "@ =~= seq![',', ' ']);
            assert(shown =~= before + seq![','] + piece);
            assert forall|k: int| 0 <= k < piece.len() implies #[trigger] piece[k] != ',' by {
                if k > 0 {
                    assert(piece[k] == tag[k - 1]);
                }
            }
            strings::law_splitting_piece_by_piece(before, piece, ',');
            lemma_listed_push(strings::pieces(before, ','), piece);
            strings::lemma_blank_before(' ', tag);
            assert(init.push(tag) =~= tags);
        }
    }
}

/// Editing a host and saving it sends the tags back that it had, as long as none
/// of them is blank, has white space at its ends or holds a comma.
pub proof fn law_unchanged_edit_sends_the_tags_back(
    host_id: Seq<char>,
    name: Seq<char>,
    host: Seq<char>,
    user: Seq<char>,
    port: u16,
    tags: Seq<Seq<char>>,
    group: Option<Seq<char>>,
    color: Option<Seq<char>>,
    auth_kind: Seq<char>,
    notes: Option<Seq<char>>,
)
    requires
        forall|i: int| 0 <= i < tags.len() ==> (#[trigger] tags[i]).len() > 0,
        forall|i: int| 0 <= i < tags.len() ==> strings::trimmed(#[trigger] tags[i]) == tags[i],
        forall|i: int, k: int|
            0 <= i < tags.len() && 0 <= k < tags[i].len() ==> #[trigger] tags[i][k] != ',',
    ensures
        StateModel::editing(
            host_id,
            name,
            host,
            user,
            port,
            tags,
            group,
            color,
            auth_kind,
            notes,
        ).saved_tags() == tags,
{
    lemma_shown_tags(tags);
}

} // verus!
