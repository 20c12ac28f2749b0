//! What the messages for the vault are for.
use vstd::prelude::*;

use crate::app::AppModel;
use crate::app::message::{AppMessage, CallModel, CommandModel, Field, PendingModel, Timer};
use crate::screens::ScreenModel;
use crate::screens::s2_unlock::RememberDuration;
use crate::strings;

verus! {

/// What the daemon tells of the vault decides what shows: no vault, the setup;
/// a locked one, the screen for unlocking; an open one is asked for its hosts.
pub proof fn law_vault_decides_the_screen(app: AppModel, locked: bool)
    ensures
        ({
            let (after, asked) = app.on_connection(AppMessage::DaemonChecked { locked, vault_exists: false });
            &&& after.screen matches ScreenModel::Setup(s) && s.passphrase.len() == 0
                && s.confirm_passphrase.len() == 0 && !s.risk_confirmed && !s.creating
            &&& asked.len() == 0
        }),
        ({
            let (after, asked) = app.on_connection(
                AppMessage::DaemonChecked { locked: true, vault_exists: true },
            );
            &&& after.screen matches ScreenModel::Unlock(s) && s.passphrase.len() == 0
                && s.error is None && !s.unlocking
            &&& asked.len() == 0
        }),
        app.on_connection(AppMessage::DaemonChecked { locked: false, vault_exists: true }) == (
            app,
            seq![
                CommandModel::Call { request: CallModel::ListHosts, pending: PendingModel::Hosts },
            ],
        ),
        app.on_connection(AppMessage::WsConnected).0.connected,
        app.on_connection(AppMessage::WsConnected).1 == seq![
            CommandModel::Call {
                request: CallModel::VaultStatus,
                pending: PendingModel::VaultStatus,
            },
        ],
{
}

/// A vault is created with exactly the passphrase that was typed, and then its
/// hosts are asked for.
pub proof fn law_vault_is_created_with_what_was_typed(
    app: AppModel,
    p: String,
    q: String,
    sure: bool,
)
    requires
        app.screen is Setup,
    ensures
        ({
            let typed = app.on_connection(AppMessage::SetupPassphraseChanged(p)).0.on_connection(
                AppMessage::SetupConfirmPassphraseChanged(q),
            ).0.on_connection(AppMessage::SetupRiskConfirmed(sure)).0;
            let (after, asked) = typed.on_connection(AppMessage::SetupCreateVault);
            &&& typed.screen matches ScreenModel::Setup(s) && s.passphrase == p@
                && s.confirm_passphrase == q@ && s.risk_confirmed == sure
            &&& asked == seq![
                CommandModel::Call {
                    request: CallModel::CreateVault { passphrase: p@ },
                    pending: PendingModel::VaultCreated,
                },
            ]
            &&& after.screen matches ScreenModel::Setup(s) && s.creating && s.error is None
        }),
        app.on_connection(AppMessage::SetupVaultCreated).1 == seq![
            CommandModel::Call { request: CallModel::ListHosts, pending: PendingModel::Hosts },
        ],
{
}

/// A vault is unlocked with exactly the passphrase that was typed, and the
/// passphrase is kept for exactly as long as was chosen.
pub proof fn law_vault_is_unlocked_with_what_was_typed(
    app: AppModel,
    p: String,
    d: RememberDuration,
)
    requires
        app.screen is Unlock,
    ensures
        ({
            let typed = app.on_connection(AppMessage::UnlockPassphraseChanged(p)).0.on_connection(
                AppMessage::UnlockRememberChanged(d),
            ).0;
            let (after, asked) = typed.on_connection(AppMessage::UnlockVault);
            let seconds: Option<u64> = match d {
                RememberDuration::Never => None,
                RememberDuration::OneMinute => Some(60),
                RememberDuration::FiveMinutes => Some((5 * 60) as u64),
                RememberDuration::FifteenMinutes => Some((15 * 60) as u64),
                RememberDuration::OneHour => Some((60 * 60) as u64),
                RememberDuration::OneDay => Some((24 * 60 * 60) as u64),
                RememberDuration::SevenDays => Some((7 * 24 * 60 * 60) as u64),
            };
            &&& asked == seq![
                CommandModel::Call {
                    request: CallModel::Unlock { passphrase: p@, remember_seconds: seconds },
                    pending: PendingModel::Unlock,
                },
            ]
            &&& after.screen matches ScreenModel::Unlock(s) && s.unlocking && s.error is None
                && s.passphrase == p@ && s.remember_duration == d
        }),
        app.on_connection(AppMessage::UnlockSuccess).1 == seq![
            CommandModel::Call { request: CallModel::ListHosts, pending: PendingModel::Hosts },
        ],
{
}

/// A failed try to unlock tells why and lets the user try again: the passphrase
/// is selected, and typing takes the error away.
pub proof fn law_failed_unlock_can_be_tried_again(
    app: AppModel,
    e: String,
    category: Option<String>,
    p: String,
)
    requires
        app.screen is Unlock,
    ensures
        ({
            let (after, asked) = app.on_connection(AppMessage::UnlockFailed(e, category));
            &&& after.screen matches ScreenModel::Unlock(s) && !s.unlocking && s.error == Some(e@)
                && s.error_category == strings::opt_text(category) && s.toast_visible
                && s.passphrase == app.screen->Unlock_0.passphrase
            &&& asked.len() == 3
            &&& asked[0] == CommandModel::Focus(Field::UnlockPassphrase)
            &&& asked[1] == CommandModel::SelectAll(Field::UnlockPassphrase)
            &&& asked[2] matches CommandModel::After { seconds, timer } && seconds == 3 && timer
                == Timer::UnlockToastHide
            &&& after.on_connection(AppMessage::UnlockToastHide).0.screen matches ScreenModel::Unlock(s)
                && !s.toast_visible && s.error == Some(e@)
            &&& after.on_connection(AppMessage::UnlockPassphraseChanged(p)).0.screen matches
                ScreenModel::Unlock(s) && s.error is None && s.error_category is None
                && !s.toast_visible && s.passphrase == p@
        }),
{
}

/// Locking asks the daemon to lock, last of all; once it is locked the screen
/// for unlocking shows, with nothing typed.
pub proof fn law_lock_asks_the_daemon(app: AppModel)
    ensures
        !app.terminal_restore_pending ==> {
            let asked = app.on_connection(AppMessage::LockVault).1;
            &&& asked.len() > 0
            &&& asked.last() == (CommandModel::Call {
                request: CallModel::Lock,
                pending: PendingModel::Locked,
            })
        },
        app.on_connection(AppMessage::VaultLocked).0.screen matches ScreenModel::Unlock(s)
            && s.passphrase.len() == 0 && s.error is None && !s.unlocking,
        !app.on_connection(AppMessage::VaultLocked).0.terminal_opening,
{
}

} // verus!
