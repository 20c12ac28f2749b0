//! Credentials, the clipboard and the editor of a host.
use vstd::prelude::*;

use crate::app::message;
use crate::app::message::{
    CallModel,
    Command,
    CommandModel,
    DaemonCall,
    KeyFile,
    Pending,
    PendingModel,
    Timer,
};
use crate::app::tabs;
use crate::app::{AppModel, VidaApp};
use crate::screens::s3_main;
use crate::screens::s4_credential;
use crate::screens::s4_credential::{AuthKind, EditorMode};
use crate::screens::{Screen, ScreenModel, TabKind};
use crate::strings;
use crate::text;

verus! {

impl AppModel {
    /// The application with another state of the main screen, where it shows.
    pub open spec fn with_main(self, f: spec_fn(s3_main::StateModel) -> s3_main::StateModel) -> AppModel {
        match self.screen {
            ScreenModel::Main(s) => AppModel { screen: ScreenModel::Main(f(s)), ..self },
            _ => self,
        }
    }

    /// The host whose tab is active; an empty id where the active tab is not
    /// that of a host.
    pub open spec fn active_host(self) -> Seq<char> {
        match tabs::tab_at(self.tabs, self.active_tab_id) {
            Some(i) => if self.tabs[i].kind is Host {
                self.active_tab_id
            } else {
                Seq::empty()
            },
            None => Seq::empty(),
        }
    }

    /// A credential shows for fifteen seconds, with the host whose tab is
    /// active.
    pub open spec fn show_credential(self, credential: Seq<char>) -> (AppModel, Seq<CommandModel>) {
        let token = (self.cred_hide_token + 1) as u64;
        (
            AppModel {
                cred_hide_token: token,
                ..self.with_main(
                    |s: s3_main::StateModel|
                        s3_main::StateModel {
                            revealed_credential: Some((self.active_host(), credential)),
                            credential_copied: false,
                        },
                )
            },
            seq![CommandModel::After { seconds: 15, timer: Timer::HideCredential(token) }],
        )
    }

    /// The timer of a credential ran out; it counts only where it is the one
    /// that was set last.
    pub open spec fn credential_timeout(self, token: u64) -> AppModel {
        if token == self.cred_hide_token {
            self.hide_credential()
        } else {
            self
        }
    }

    /// A credential goes to the clipboard for forty-five seconds.
    pub open spec fn copy_credential(self, credential: Seq<char>) -> (AppModel, Seq<CommandModel>) {
        let token = (self.clipboard_token + 1) as u64;
        (
            AppModel {
                clipboard_token: token,
                clipboard_guard: Some((token, credential)),
                ..self.with_main(
                    |s: s3_main::StateModel|
                        s3_main::StateModel { credential_copied: true, ..s },
                )
            },
            seq![
                CommandModel::WriteClipboard(credential),
                CommandModel::After { seconds: 45, timer: Timer::ClearClipboard(token) },
            ],
        )
    }

    /// The timer of the clipboard ran out: what was written is taken back,
    /// unless another copy was made since.
    pub open spec fn clear_clipboard(self, token: u64) -> (AppModel, Seq<CommandModel>) {
        let told = self.with_main(
            |s: s3_main::StateModel| s3_main::StateModel { credential_copied: false, ..s },
        );
        match self.clipboard_guard {
            Some((guard, content)) => if guard == token {
                (
                    AppModel { clipboard_guard: None, ..told },
                    seq![CommandModel::ClearClipboardIf(content)],
                )
            } else {
                (told, Seq::empty())
            },
            None => (told, Seq::empty()),
        }
    }

    /// The application with another state of the editor, where it is open.
    pub open spec fn with_editor(
        self,
        f: spec_fn(s4_credential::StateModel) -> s4_credential::StateModel,
    ) -> AppModel {
        match self.editor_state {
            Some(s) => AppModel { editor_state: Some(f(s)), ..self },
            None => self,
        }
    }

    /// Another way of authentication: what was typed for the one before is
    /// dropped.
    pub open spec fn editor_auth(self, kind: AuthKind) -> AppModel {
        self.with_editor(
            |s: s4_credential::StateModel|
                if s.auth_kind == kind {
                    s
                } else {
                    s4_credential::StateModel {
                        auth_kind: kind,
                        password: Seq::empty(),
                        private_key_path: Seq::empty(),
                        inline_key: Seq::empty(),
                        key_passphrase: Seq::empty(),
                        credential_dirty: true,
                        ..s
                    }
                },
        )
    }

    /// A file with a key was read.
    pub open spec fn key_file_read(self, file: KeyFile) -> AppModel {
        let lang = self.lang;
        self.with_editor(
            |s: s4_credential::StateModel|
                match file {
                    KeyFile::Contents(contents) => if contents@.len() > 0 {
                        s4_credential::StateModel {
                            inline_key: contents@,
                            credential_dirty: true,
                            error: None,
                            ..s
                        }
                    } else {
                        s4_credential::StateModel {
                            error: Some(text::tr(lang, "editor_key_empty"@)),
                            ..s
                        }
                    },
                    KeyFile::ReadFailed(error) => s4_credential::StateModel {
                        error: Some(text::trf1(lang, "editor_key_read_failed"@, error@)),
                        ..s
                    },
                },
        )
    }

    /// A file is asked for while the editor is open.
    pub open spec fn ask_while_editing(self, command: CommandModel) -> Seq<CommandModel> {
        if self.editor_state is Some {
            seq![command]
        } else {
            Seq::empty()
        }
    }

    /// The host of the editor is saved.
    pub open spec fn editor_save(self) -> (AppModel, Seq<CommandModel>) {
        match self.editor_state {
            Some(s) => (
                AppModel {
                    editor_state: Some(
                        s4_credential::StateModel { saving: true, error: None, ..s },
                    ),
                    ..self
                },
                seq![
                    CommandModel::Call {
                        request: CallModel::Send { kind: "UpdateHost"@, body: s.request() },
                        pending: PendingModel::HostSaved,
                    },
                ],
            ),
            None => (self, Seq::empty()),
        }
    }

    pub open spec fn editor_name(self, v: Seq<char>) -> AppModel {
        self.with_editor(
            |s: s4_credential::StateModel| s4_credential::StateModel { name: v, ..s },
        )
    }

    pub open spec fn editor_host(self, v: Seq<char>) -> AppModel {
        self.with_editor(
            |s: s4_credential::StateModel| s4_credential::StateModel { host: v, ..s },
        )
    }

    pub open spec fn editor_user(self, v: Seq<char>) -> AppModel {
        self.with_editor(
            |s: s4_credential::StateModel| s4_credential::StateModel { user: v, ..s },
        )
    }

    pub open spec fn editor_port(self, v: Seq<char>) -> AppModel {
        self.with_editor(
            |s: s4_credential::StateModel| s4_credential::StateModel { port: v, ..s },
        )
    }

    /// Another password. Where it empties the field of an edited host, that is
    /// noted.
    pub open spec fn editor_password(self, v: Seq<char>) -> AppModel {
        self.with_editor(
            |s: s4_credential::StateModel|
                s4_credential::StateModel {
                    password: v,
                    credential_dirty: true,
                    password_cleared: v.len() == 0 && s.password.len() > 0 && s.host_id is Some,
                    ..s
                },
        )
    }

    pub open spec fn editor_key_path(self, v: Seq<char>) -> AppModel {
        self.with_editor(
            |s: s4_credential::StateModel|
                s4_credential::StateModel {
                    private_key_path: v,
                    credential_dirty: true,
                    ..s
                },
        )
    }

    pub open spec fn editor_key_picked(self, v: Seq<char>) -> AppModel {
        self.with_editor(
            |s: s4_credential::StateModel|
                s4_credential::StateModel {
                    private_key_path: v,
                    credential_dirty: true,
                    error: None,
                    ..s
                },
        )
    }

    pub open spec fn editor_key_passphrase(self, v: Seq<char>) -> AppModel {
        self.with_editor(
            |s: s4_credential::StateModel|
                s4_credential::StateModel {
                    key_passphrase: v,
                    credential_dirty: true,
                    ..s
                },
        )
    }

    pub open spec fn editor_tags(self, v: Seq<char>) -> AppModel {
        self.with_editor(
            |s: s4_credential::StateModel| s4_credential::StateModel { tags: v, ..s },
        )
    }

    pub open spec fn editor_group(self, v: Seq<char>) -> AppModel {
        self.with_editor(
            |s: s4_credential::StateModel| s4_credential::StateModel { group: v, ..s },
        )
    }

    pub open spec fn editor_notes(self, v: Seq<char>) -> AppModel {
        self.with_editor(
            |s: s4_credential::StateModel| s4_credential::StateModel { notes: v, ..s },
        )
    }
}

/// The clipboard is emptied only while it holds what was written to it.
pub fn clears_clipboard(current: &Option<String>, expected: &str) -> (res: bool)
    ensures
        res == (strings::opt_text(*current) == Some(expected@)),
{
    match current {
        Some(text) => strings::text_eq(text.as_str(), expected),
        None => false,
    }
}

impl VidaApp {
    fn active_host(&self) -> (res: String)
        ensures
            res@ == self@.active_host(),
    {
        let found = tabs::find_tab(&self.tabs, self.active_tab_id.as_str());
        if let Some(i) = found {
            let is_host: bool = match self.tabs[i].kind {
                TabKind::Host { .. } => true,
                _ => false,
            };
            if is_host {
                return self.active_tab_id.clone();
            }
        }
        let out = String::new();
        proof {
            assert(out@ =~= Seq::<char>::empty());
        }
        out
    }

    pub fn show_credential(&mut self, credential: String) -> (res: Vec<Command>)
        requires
            old(self).cred_hide_token < u64::MAX,
        ensures
            (final(self)@, message::command_models(res@)) == old(self)@.show_credential(
                credential@,
            ),
    {
        self.cred_hide_token = self.cred_hide_token + 1;
        let token: u64 = self.cred_hide_token;
        let host_id = self.active_host();
        if let Screen::Main(s) = &mut self.screen {
            s.revealed_credential = Some((host_id, credential));
            s.credential_copied = false;
        }
        message::one(Command::After { seconds: 15, timer: Timer::HideCredential(token) })
    }

    pub fn credential_timeout(&mut self, token: u64)
        ensures
            final(self)@ == old(self)@.credential_timeout(token),
    {
        if token == self.cred_hide_token {
            if let Screen::Main(s) = &mut self.screen {
                s.revealed_credential = None;
                s.credential_copied = false;
            }
        }
    }

    pub fn copy_credential(&mut self, credential: String) -> (res: Vec<Command>)
        requires
            old(self).clipboard_token < u64::MAX,
        ensures
            (final(self)@, message::command_models(res@)) == old(self)@.copy_credential(
                credential@,
            ),
    {
        self.clipboard_token = self.clipboard_token + 1;
        let token: u64 = self.clipboard_token;
        self.clipboard_guard = Some((token, credential.clone()));
        if let Screen::Main(s) = &mut self.screen {
            s.credential_copied = true;
        }
        let mut commands = message::one(Command::WriteClipboard(credential));
        message::push_command(
            &mut commands,
            Command::After { seconds: 45, timer: Timer::ClearClipboard(token) },
        );
        proof {
            assert(message::command_models(commands@) =~= old(self)@.copy_credential(
                credential@,
            ).1);
        }
        commands
    }

    pub fn clear_clipboard(&mut self, token: u64) -> (res: Vec<Command>)
        ensures
            (final(self)@, message::command_models(res@)) == old(self)@.clear_clipboard(token),
    {
        if let Screen::Main(s) = &mut self.screen {
            s.credential_copied = false;
        }
        let expected: String = match &self.clipboard_guard {
            Some((guard, content)) => if *guard == token {
                content.clone()
            } else {
                return message::nothing();
            },
            None => return message::nothing(),
        };
        self.clipboard_guard = None;
        message::one(Command::ClearClipboardIf(expected))
    }

    pub fn editor_name(&mut self, v: String)
        ensures
            final(self)@ == old(self)@.editor_name(v@),
    {
        if let Some(s) = &mut self.editor_state {
            s.name = v;
        }
    }

    pub fn editor_host(&mut self, v: String)
        ensures
            final(self)@ == old(self)@.editor_host(v@),
    {
        if let Some(s) = &mut self.editor_state {
            s.host = v;
        }
    }

    pub fn editor_user(&mut self, v: String)
        ensures
            final(self)@ == old(self)@.editor_user(v@),
    {
        if let Some(s) = &mut self.editor_state {
            s.user = v;
        }
    }

    pub fn editor_port(&mut self, v: String)
        ensures
            final(self)@ == old(self)@.editor_port(v@),
    {
        if let Some(s) = &mut self.editor_state {
            s.port = v;
        }
    }

    pub fn editor_password(&mut self, v: String)
        ensures
            final(self)@ == old(self)@.editor_password(v@),
    {
        if let Some(s) = &mut self.editor_state {
            let is_edit: bool = match s.mode {
                EditorMode::Edit { .. } => true,
                EditorMode::Add => false,
            };
            s.password_cleared = v.as_str().is_empty() && !s.password.as_str().is_empty() && is_edit;
            s.password = v;
            s.credential_dirty = true;
        }
    }

    pub fn editor_auth(&mut self, kind: AuthKind)
        ensures
            final(self)@ == old(self)@.editor_auth(kind),
    {
        if let Some(s) = &mut self.editor_state {
            if s.auth_kind != kind {
                s.auth_kind = kind;
                s.password = String::new();
                s.private_key_path = String::new();
                s.inline_key = String::new();
                s.key_passphrase = String::new();
                s.credential_dirty = true;
                proof {
                    assert(s.password@ =~= Seq::<char>::empty());
                    assert(s.private_key_path@ =~= Seq::<char>::empty());
                    assert(s.inline_key@ =~= Seq::<char>::empty());
                    assert(s.key_passphrase@ =~= Seq::<char>::empty());
                }
            }
        }
    }

    pub fn editor_key_path(&mut self, v: String)
        ensures
            final(self)@ == old(self)@.editor_key_path(v@),
    {
        if let Some(s) = &mut self.editor_state {
            s.private_key_path = v;
            s.credential_dirty = true;
        }
    }

    pub fn editor_key_picked(&mut self, v: String)
        ensures
            final(self)@ == old(self)@.editor_key_picked(v@),
    {
        if let Some(s) = &mut self.editor_state {
            s.private_key_path = v;
            s.credential_dirty = true;
            s.error = None;
        }
    }

    pub fn key_file_read(&mut self, file: KeyFile)
        ensures
            final(self)@ == old(self)@.key_file_read(file),
    {
        let i18n = self.i18n;
        if let Some(s) = &mut self.editor_state {
            match file {
                KeyFile::Contents(contents) => {
                    if contents.as_str().is_empty() {
                        s.error = Some(i18n.tr("editor_key_empty"));
                    } else {
                        s.inline_key = contents;
                        s.credential_dirty = true;
                        s.error = None;
                    }
                },
                KeyFile::ReadFailed(error) => {
                    s.error = Some(i18n.trf1("editor_key_read_failed", error));
                },
            }
        }
    }

    pub fn editor_key_passphrase(&mut self, v: String)
        ensures
            final(self)@ == old(self)@.editor_key_passphrase(v@),
    {
        if let Some(s) = &mut self.editor_state {
            s.key_passphrase = v;
            s.credential_dirty = true;
        }
    }

    pub fn editor_tags(&mut self, v: String)
        ensures
            final(self)@ == old(self)@.editor_tags(v@),
    {
        if let Some(s) = &mut self.editor_state {
            s.tags = v;
        }
    }

    pub fn editor_group(&mut self, v: String)
        ensures
            final(self)@ == old(self)@.editor_group(v@),
    {
        if let Some(s) = &mut self.editor_state {
            s.group = v;
        }
    }

    pub fn editor_notes(&mut self, v: String)
        ensures
            final(self)@ == old(self)@.editor_notes(v@),
    {
        if let Some(s) = &mut self.editor_state {
            s.notes = v;
        }
    }

    /// A file is asked for while the editor is open.
    pub fn ask_while_editing(&self, command: Command) -> (res: Vec<Command>)
        ensures
            message::command_models(res@) == self@.ask_while_editing(command@),
    {
        if self.editor_state.is_some() {
            message::one(command)
        } else {
            message::nothing()
        }
    }

    pub fn editor_save(&mut self) -> (res: Vec<Command>)
        ensures
            (final(self)@, message::command_models(res@)) == old(self)@.editor_save(),
    {
        if let Some(s) = &mut self.editor_state {
            let body = s.save_request();
            s.saving = true;
            s.error = None;
            message::one(
                Command::Call {
                    request: DaemonCall::Send { kind: "UpdateHost".to_string(), body },
                    pending: Pending::HostSaved,
                },
            )
        } else {
            message::nothing()
        }
    }
}

/// A timer that was set before a tab was switched to, or before another
/// credential was shown, hides nothing.
pub proof fn law_stale_credential_timer(app: AppModel, tab_id: Seq<char>, credential: Seq<char>)
    requires
        app.cred_hide_token < u64::MAX,
    ensures
        app.switch_tab(tab_id).0.credential_timeout(app.cred_hide_token) == app.switch_tab(
            tab_id,
        ).0,
        app.show_credential(credential).0.credential_timeout(app.cred_hide_token)
            == app.show_credential(credential).0,
{
}

/// The timer that a shown credential sets hides it, and switching tabs does.
pub proof fn law_credential_hides(app: AppModel, credential: Seq<char>, tab_id: Seq<char>)
    requires
        app.cred_hide_token < u64::MAX,
        app.screen is Main,
    ensures
        ({
            let shown = app.show_credential(credential).0;
            &&& shown.credential_timeout(shown.cred_hide_token).screen == ScreenModel::Main(
                s3_main::StateModel::hidden(),
            )
            &&& shown.switch_tab(tab_id).0.screen == ScreenModel::Main(
                s3_main::StateModel::hidden(),
            )
        }),
{
}

/// A timer of the clipboard that was set before another copy takes nothing
/// back; the one of the last copy asks for exactly what was copied.
pub proof fn law_clipboard_timer(app: AppModel, first: Seq<char>, second: Seq<char>)
    requires
        app.clipboard_token < u64::MAX - 1,
    ensures
        ({
            let once = app.copy_credential(first).0;
            let twice = once.copy_credential(second).0;
            &&& twice.clear_clipboard(once.clipboard_token).1.len() == 0
            &&& twice.clear_clipboard(twice.clipboard_token).1 == seq![
                CommandModel::ClearClipboardIf(second),
            ]
            &&& once.clear_clipboard(once.clipboard_token).1 == seq![
                CommandModel::ClearClipboardIf(first),
            ]
        }),
{
}

} // verus!
