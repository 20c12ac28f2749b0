//! The connection to the daemon, and how the vault is created, unlocked and
//! locked.
use vstd::prelude::*;

use crate::app::message;
use crate::app::message::{
    CallModel,
    Command,
    CommandModel,
    DaemonCall,
    Field,
    Pending,
    PendingModel,
    Timer,
};
use crate::app::tabs;
use crate::app::tabs::Keep;
use crate::app::{AppModel, SlotModel, SyncState, VidaApp};
use crate::json::JsonModel;
use crate::screens::s0_connection;
use crate::screens::s1_setup;
use crate::screens::s2_unlock;
use crate::screens::s2_unlock::RememberDuration;
use crate::screens::{Screen, ScreenModel, TabModel};
use crate::strings;
use crate::text;
use crate::text::{SpanModel, Text};

verus! {

/// The message of an error without the mark of a failed authentication.
pub open spec fn shown_error(e: Seq<char>) -> Seq<char> {
    match strings::stripped(e, "AUTH_FAILED:"@) {
        Some(rest) => rest,
        None => e,
    }
}

impl AppModel {
    /// There is a connection: the daemon is asked how the vault stands.
    pub open spec fn ws_connected(self) -> (AppModel, Seq<CommandModel>) {
        (
            AppModel {
                connected: true,
                terminal_reconnect_in_flight: self.terminal_reconnect_in_flight
                    && self.terminal_restore_pending,
                ..self
            },
            seq![
                CommandModel::Call {
                    request: CallModel::VaultStatus,
                    pending: PendingModel::VaultStatus,
                },
            ],
        )
    }

    /// The connection, or a request over it, failed.
    pub open spec fn ws_error(self, e: Seq<char>) -> (AppModel, Seq<CommandModel>) {
        (
            AppModel {
                terminal_reconnect_in_flight: false,
                sync_state: if self.sync_state == SyncState::Syncing {
                    SyncState::Error
                } else {
                    self.sync_state
                },
                screen: ScreenModel::ConnectionFailure(text::plain(shown_error(e))),
                ..self
            },
            Seq::empty(),
        )
    }

    /// Another try to connect, unless one is under way.
    pub open spec fn retry_connection(self) -> (AppModel, Seq<CommandModel>) {
        if self.terminal_reconnect_in_flight {
            (self, Seq::empty())
        } else {
            (
                AppModel { terminal_reconnect_in_flight: true, ..self },
                seq![
                    CommandModel::Connect {
                        delay_seconds: 0,
                        restoring: self.terminal_restore_pending,
                    },
                ],
            )
        }
    }

    /// The daemon told how the vault stands.
    pub open spec fn daemon_checked(self, locked: bool, vault_exists: bool) -> (
        AppModel,
        Seq<CommandModel>,
    ) {
        if !vault_exists {
            (
                AppModel { screen: ScreenModel::Setup(s1_setup::StateModel::blank()), ..self },
                Seq::empty(),
            )
        } else if locked {
            (
                AppModel { screen: ScreenModel::Unlock(s2_unlock::StateModel::blank()), ..self },
                Seq::empty(),
            )
        } else {
            (self, message::list_hosts())
        }
    }

    /// The application with another state of the screen for the setup, where
    /// that screen shows.
    pub open spec fn with_setup(self, f: spec_fn(s1_setup::StateModel) -> s1_setup::StateModel) -> AppModel {
        match self.screen {
            ScreenModel::Setup(s) => AppModel { screen: ScreenModel::Setup(f(s)), ..self },
            _ => self,
        }
    }

    /// The application with another state of the screen for unlocking, where
    /// that screen shows.
    pub open spec fn with_unlock(
        self,
        f: spec_fn(s2_unlock::StateModel) -> s2_unlock::StateModel,
    ) -> AppModel {
        match self.screen {
            ScreenModel::Unlock(s) => AppModel { screen: ScreenModel::Unlock(f(s)), ..self },
            _ => self,
        }
    }

    /// The vault is created with the passphrase that was typed.
    pub open spec fn create_vault(self) -> (AppModel, Seq<CommandModel>) {
        match self.screen {
            ScreenModel::Setup(s) => (
                AppModel {
                    screen: ScreenModel::Setup(
                        s1_setup::StateModel { creating: true, error: None, ..s },
                    ),
                    ..self
                },
                seq![
                    CommandModel::Call {
                        request: CallModel::CreateVault { passphrase: s.passphrase },
                        pending: PendingModel::VaultCreated,
                    },
                ],
            ),
            _ => (self, Seq::empty()),
        }
    }

    /// The vault is unlocked with the passphrase that was typed.
    pub open spec fn unlock_vault(self) -> (AppModel, Seq<CommandModel>) {
        match self.screen {
            ScreenModel::Unlock(s) => (
                AppModel {
                    screen: ScreenModel::Unlock(
                        s2_unlock::StateModel { unlocking: true, error: None, ..s },
                    ),
                    ..self
                },
                seq![
                    CommandModel::Call {
                        request: CallModel::Unlock {
                            passphrase: s.passphrase,
                            remember_seconds: s.remember_duration.in_seconds(),
                        },
                        pending: PendingModel::Unlock,
                    },
                ],
            ),
            _ => (self, Seq::empty()),
        }
    }

    /// The passphrase was wrong, or unlocking failed otherwise.
    pub open spec fn unlock_failed(self, error: Seq<char>, category: Option<Seq<char>>) -> (
        AppModel,
        Seq<CommandModel>,
    ) {
        (
            match self.screen {
                ScreenModel::Unlock(s) => AppModel {
                    screen: ScreenModel::Unlock(
                        s2_unlock::StateModel {
                            unlocking: false,
                            error: Some(error),
                            error_category: category,
                            toast_visible: true,
                            ..s
                        },
                    ),
                    ..self
                },
                _ => self,
            },
            seq![
                CommandModel::Focus(Field::UnlockPassphrase),
                CommandModel::SelectAll(Field::UnlockPassphrase),
                CommandModel::After { seconds: 3, timer: Timer::UnlockToastHide },
            ],
        )
    }

    /// All terminals end, and their tabs close.
    pub open spec fn close_all_terminals(self) -> (AppModel, Seq<CommandModel>) {
        (
            AppModel {
                terminal_sessions: Seq::empty(),
                tabs: self.tabs.filter(|t: TabModel| !(t.kind is Terminal)),
                terminal_reconnect_cooldown: None,
                terminal_restore_pending: false,
                terminal_reconnect_in_flight: false,
                ..self
            },
            if self.connected {
                close_sessions(self.terminal_sessions)
            } else {
                Seq::empty()
            },
        )
    }

    /// The vault is locked. While terminals wait to be taken up again they are
    /// kept, and another try to connect is made.
    pub open spec fn lock_vault(self) -> (AppModel, Seq<CommandModel>) {
        if self.terminal_restore_pending {
            self.retry_connection()
        } else {
            let (closed, commands) = self.close_all_terminals();
            (
                AppModel {
                    active_tab_id: if tabs::has_tab(closed.tabs, closed.active_tab_id) {
                        closed.active_tab_id
                    } else {
                        tabs::first_id(closed.tabs)
                    },
                    ..closed
                },
                commands.push(
                    CommandModel::Call { request: CallModel::Lock, pending: PendingModel::Locked },
                ),
            )
        }
    }

    pub open spec fn vault_locked(self) -> (AppModel, Seq<CommandModel>) {
        (
            AppModel {
                terminal_opening: false,
                terminal_error: None,
                screen: ScreenModel::Unlock(s2_unlock::StateModel::blank()),
                ..self
            },
            Seq::empty(),
        )
    }

    pub open spec fn setup_passphrase(self, p: Seq<char>) -> AppModel {
        self.with_setup(
            |s: s1_setup::StateModel| s1_setup::StateModel { passphrase: p, ..s },
        )
    }

    pub open spec fn setup_confirm(self, p: Seq<char>) -> AppModel {
        self.with_setup(
            |s: s1_setup::StateModel| s1_setup::StateModel { confirm_passphrase: p, ..s },
        )
    }

    pub open spec fn setup_risk(self, confirmed: bool) -> AppModel {
        self.with_setup(
            |s: s1_setup::StateModel| s1_setup::StateModel { risk_confirmed: confirmed, ..s },
        )
    }

    pub open spec fn unlock_passphrase(self, p: Seq<char>) -> AppModel {
        self.with_unlock(
            |s: s2_unlock::StateModel|
                s2_unlock::StateModel {
                    passphrase: p,
                    error: None,
                    error_category: None,
                    toast_visible: false,
                    ..s
                },
        )
    }

    pub open spec fn unlock_remember(self, duration: RememberDuration) -> AppModel {
        self.with_unlock(
            |s: s2_unlock::StateModel|
                s2_unlock::StateModel { remember_duration: duration, ..s },
        )
    }

    pub open spec fn hide_unlock_toast(self) -> AppModel {
        self.with_unlock(
            |s: s2_unlock::StateModel| s2_unlock::StateModel { toast_visible: false, ..s },
        )
    }
}

/// The sessions of terminals are closed, one after another.
pub open spec fn close_sessions(slots: Seq<SlotModel>) -> Seq<CommandModel>
    decreases slots.len(),
{
    if slots.len() == 0 {
        Seq::empty()
    } else {
        close_sessions(slots.drop_last()) + tabs::close_session(slots.last().session.session_id)
    }
}

impl VidaApp {
    pub fn connect_done(&mut self) -> (res: Vec<Command>)
        ensures
            (final(self)@, message::command_models(res@)) == old(self)@.ws_connected(),
    {
        if !self.terminal_restore_pending {
            self.terminal_reconnect_in_flight = false;
        }
        self.connected = true;
        message::one(
            Command::Call { request: DaemonCall::VaultStatus, pending: Pending::VaultStatus },
        )
    }

    pub fn connection_failed(&mut self, e: String) -> (res: Vec<Command>)
        ensures
            (final(self)@, message::command_models(res@)) == old(self)@.ws_error(e@),
    {
        self.terminal_reconnect_in_flight = false;
        if self.sync_state == SyncState::Syncing {
            self.sync_state = SyncState::Error;
        }
        let display = match strings::strip_prefix(e.as_str(), "AUTH_FAILED:") {
            Some(rest) => rest,
            None => e,
        };
        self.screen = Screen::ConnectionFailure(s0_connection::State::new(Text::plain(display)));
        message::nothing()
    }

    pub fn retry_connection(&mut self) -> (res: Vec<Command>)
        ensures
            (final(self)@, message::command_models(res@)) == old(self)@.retry_connection(),
    {
        if self.terminal_reconnect_in_flight {
            return message::nothing();
        }
        self.terminal_reconnect_in_flight = true;
        message::one(
            Command::Connect { delay_seconds: 0, restoring: self.terminal_restore_pending },
        )
    }

    pub fn daemon_checked(&mut self, locked: bool, vault_exists: bool) -> (res: Vec<Command>)
        ensures
            (final(self)@, message::command_models(res@)) == old(self)@.daemon_checked(
                locked,
                vault_exists,
            ),
    {
        if !vault_exists {
            self.screen = Screen::Setup(s1_setup::State::new());
            message::nothing()
        } else if locked {
            self.screen = Screen::Unlock(s2_unlock::State::new());
            message::nothing()
        } else {
            message::ask_hosts()
        }
    }

    pub fn setup_passphrase(&mut self, p: String)
        ensures
            final(self)@ == old(self)@.setup_passphrase(p@),
    {
        if let Screen::Setup(s) = &mut self.screen {
            s.passphrase = p;
        }
    }

    pub fn setup_confirm(&mut self, p: String)
        ensures
            final(self)@ == old(self)@.setup_confirm(p@),
    {
        if let Screen::Setup(s) = &mut self.screen {
            s.confirm_passphrase = p;
        }
    }

    pub fn setup_risk(&mut self, confirmed: bool)
        ensures
            final(self)@ == old(self)@.setup_risk(confirmed),
    {
        if let Screen::Setup(s) = &mut self.screen {
            s.risk_confirmed = confirmed;
        }
    }

    pub fn create_vault(&mut self) -> (res: Vec<Command>)
        ensures
            (final(self)@, message::command_models(res@)) == old(self)@.create_vault(),
    {
        if let Screen::Setup(s) = &mut self.screen {
            s.creating = true;
            s.error = None;
            message::one(
                Command::Call {
                    request: DaemonCall::CreateVault { passphrase: s.passphrase.clone() },
                    pending: Pending::VaultCreated,
                },
            )
        } else {
            message::nothing()
        }
    }

    pub fn unlock_passphrase(&mut self, p: String)
        ensures
            final(self)@ == old(self)@.unlock_passphrase(p@),
    {
        if let Screen::Unlock(s) = &mut self.screen {
            s.passphrase = p;
            s.error = None;
            s.error_category = None;
            s.toast_visible = false;
        }
    }

    pub fn unlock_remember(&mut self, duration: RememberDuration)
        ensures
            final(self)@ == old(self)@.unlock_remember(duration),
    {
        if let Screen::Unlock(s) = &mut self.screen {
            s.remember_duration = duration;
        }
    }

    pub fn hide_unlock_toast(&mut self)
        ensures
            final(self)@ == old(self)@.hide_unlock_toast(),
    {
        if let Screen::Unlock(s) = &mut self.screen {
            s.toast_visible = false;
        }
    }

    pub fn unlock_vault(&mut self) -> (res: Vec<Command>)
        ensures
            (final(self)@, message::command_models(res@)) == old(self)@.unlock_vault(),
    {
        if let Screen::Unlock(s) = &mut self.screen {
            s.unlocking = true;
            s.error = None;
            message::one(
                Command::Call {
                    request: DaemonCall::Unlock {
                        passphrase: s.passphrase.clone(),
                        remember_seconds: s.remember_duration.seconds(),
                    },
                    pending: Pending::Unlock,
                },
            )
        } else {
            message::nothing()
        }
    }

    pub fn unlock_failed(&mut self, error: String, category: Option<String>) -> (res: Vec<Command>)
        ensures
            (final(self)@, message::command_models(res@)) == old(self)@.unlock_failed(
                error@,
                strings::opt_text(category),
            ),
    {
        if let Screen::Unlock(s) = &mut self.screen {
            s.unlocking = false;
            s.error = Some(error);
            s.error_category = category;
            s.toast_visible = true;
        }
        let mut commands = message::one(Command::Focus(Field::UnlockPassphrase));
        message::push_command(&mut commands, Command::SelectAll(Field::UnlockPassphrase));
        message::push_command(
            &mut commands,
            Command::After { seconds: 3, timer: Timer::UnlockToastHide },
        );
        proof {
            assert(message::command_models(commands@) =~= old(self)@.unlock_failed(
                error@,
                strings::opt_text(category),
            ).1);
        }
        commands
    }

    /// All terminals end, and their tabs close.
    pub fn close_all_terminal_sessions(&mut self) -> (res: Vec<Command>)
        ensures
            final(self)@.wf(),
            (final(self)@, message::command_models(res@)) == old(self)@.close_all_terminals(),
    {
        let ghost all = crate::app::slot_models(self.terminal_sessions@);
        let mut commands = message::nothing();
        if self.connected {
            let mut i: usize = 0;
            proof {
                assert(message::command_models(commands@) =~= close_sessions(all.take(0)));
            }
            while i < self.terminal_sessions.len()
                invariant
                    i <= self.terminal_sessions@.len(),
                    all == crate::app::slot_models(self.terminal_sessions@),
                    message::command_models(commands@) == close_sessions(all.take(i as int)),
                    self.connected,
                    *self == *old(self),
                decreases self.terminal_sessions@.len() - i,
            {
                proof {
                    assert(all.take(i + 1).drop_last() =~= all.take(i as int));
                }
                let ghost first = commands@;
                let mut more = tabs::closing_commands(
                    self.terminal_sessions[i].session.session_id.as_str(),
                );
                let ghost rest = more@;
                commands.append(&mut more);
                proof {
                    assert(message::command_models(commands@) =~= message::command_models(first)
                        + message::command_models(rest));
                }
                i += 1;
            }
            proof {
                assert(all.take(i as int) =~= all);
            }
        }
        self.terminal_sessions = Vec::new();
        self.tabs = tabs::keep_tabs(&self.tabs, Keep::NoTerminals);
        self.terminal_reconnect_cooldown = None;
        self.terminal_restore_pending = false;
        self.terminal_reconnect_in_flight = false;
        proof {
            assert(Keep::NoTerminals.test() =~= (|t: TabModel| !(t.kind is Terminal)));
            assert(self@.terminal_sessions =~= Seq::<SlotModel>::empty());
        }
        commands
    }

    pub fn lock_vault(&mut self) -> (res: Vec<Command>)
        requires
            old(self)@.wf(),
        ensures
            final(self)@.wf(),
            (final(self)@, message::command_models(res@)) == old(self)@.lock_vault(),
    {
        if self.terminal_restore_pending {
            return self.retry_connection();
        }
        let mut commands = self.close_all_terminal_sessions();
        if tabs::find_tab(&self.tabs, self.active_tab_id.as_str()).is_none() {
            self.active_tab_id = tabs::first_tab_id(&self.tabs);
        }
        message::push_command(
            &mut commands,
            Command::Call { request: DaemonCall::Lock, pending: Pending::Locked },
        );
        commands
    }

    pub fn vault_locked(&mut self) -> (res: Vec<Command>)
        ensures
            (final(self)@, message::command_models(res@)) == old(self)@.vault_locked(),
    {
        self.terminal_opening = false;
        self.terminal_error = None;
        self.screen = Screen::Unlock(s2_unlock::State::new());
        message::nothing()
    }
}

/// While terminals wait to be taken up again, locking the vault keeps every
/// terminal and every tab.
pub proof fn law_lock_keeps_waiting_terminals(app: AppModel)
    requires
        app.terminal_restore_pending,
    ensures
        app.lock_vault().0.terminal_sessions == app.terminal_sessions,
        app.lock_vault().0.tabs == app.tabs,
        app.lock_vault().0.terminal_restore_pending,
{
}

/// Two tries to connect in a row make one connection.
pub proof fn law_one_connection_at_a_time(app: AppModel)
    ensures
        app.retry_connection().0.retry_connection().1.len() == 0,
        app.retry_connection().0.retry_connection().0 == app.retry_connection().0,
{
}

/// A locked vault leaves no terminal and no tab of one behind.
pub proof fn law_lock_closes_every_terminal(app: AppModel)
    requires
        !app.terminal_restore_pending,
    ensures
        app.lock_vault().0.terminal_sessions.len() == 0,
        forall|i: int|
            0 <= i < app.lock_vault().0.tabs.len() ==> !((
            #[trigger] app.lock_vault().0.tabs[i]).kind is Terminal),
{
    crate::model::lemma_filter_members(app.tabs, |t: TabModel| !(t.kind is Terminal));
}

/// An error of the connection shows on its own screen without the mark for
/// refused logins; a sync under way has failed, and another try to connect is
/// possible.
pub proof fn law_connection_errors_show(app: AppModel, e: Seq<char>)
    ensures
        ({
            let (after, asked) = app.ws_error(e);
            let (refused, _) = app.ws_error("AUTH_FAILED:"@ + e);
            &&& asked.len() == 0
            &&& refused.screen == ScreenModel::ConnectionFailure(seq![SpanModel::Plain(e)])
            &&& strings::stripped(e, "AUTH_FAILED:"@) is None ==> after.screen
                == ScreenModel::ConnectionFailure(seq![SpanModel::Plain(e)])
            &&& app.sync_state == SyncState::Syncing ==> after.sync_state == SyncState::Error
            &&& app.sync_state != SyncState::Syncing ==> after.sync_state == app.sync_state
            &&& after.hosts == app.hosts
            &&& after.tabs == app.tabs
            &&& after.terminal_sessions == app.terminal_sessions
            &&& after.retry_connection().1 == seq![
                CommandModel::Connect {
                    delay_seconds: 0,
                    restoring: app.terminal_restore_pending,
                },
            ]
        }),
{
    strings::law_cutting_undoes_writing(e, "AUTH_FAILED:"@);
}

/// Closing all terminals closes each session, in order, without another word.
pub proof fn law_every_session_is_closed(slots: Seq<SlotModel>, slot: SlotModel)
    ensures
        close_sessions(Seq::empty()).len() == 0,
        close_sessions(slots.push(slot)) == close_sessions(slots) + seq![
            CommandModel::Unsubscribe(slot.session.session_id),
            CommandModel::Queue {
                kind: "CloseSession"@,
                body: JsonModel::Object(
                    seq![("session_id"@, JsonModel::Str(slot.session.session_id))],
                ),
                notice_tab: None,
            },
        ],
{
    assert(slots.push(slot).drop_last() =~= slots);
}

} // verus!
