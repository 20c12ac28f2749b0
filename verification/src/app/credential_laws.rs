//! What the messages for credentials are for.
use vstd::prelude::*;

use crate::app::AppModel;
use crate::app::message::{AppMessage, CallModel, CommandModel, PendingModel, Timer};
use crate::model;
use crate::screens::{ScreenModel, TabModel};

verus! {

/// The credential that is asked for is that of the host that was asked for. It
/// shows, unchanged and for fifteen seconds, with the host whose tab is active.
pub proof fn law_credential_is_shown_for_a_while(app: AppModel, id: String, c: String, i: int)
    requires
        app.screen is Main,
        app.cred_hide_token < u64::MAX,
        0 <= i < app.tabs.len(),
        app.tabs[i].id == app.active_tab_id,
        app.tabs[i].kind is Host,
        forall|j: int| 0 <= j < i ==> (#[trigger] app.tabs[j]).id != app.active_tab_id,
    ensures
        app.on_tab(AppMessage::RevealCredential(id)) == (
            app,
            seq![
                CommandModel::Call {
                    request: CallModel::RevealCredential { host_id: id@ },
                    pending: PendingModel::Credential,
                },
            ],
        ),
        ({
            let (after, asked) = app.on_tab(AppMessage::ShowCredential(c));
            &&& after.screen matches ScreenModel::Main(s) && s.revealed_credential == Some(
                (app.active_tab_id, c@),
            ) && !s.credential_copied
            &&& asked == seq![
                CommandModel::After {
                    seconds: 15,
                    timer: Timer::HideCredential(after.cred_hide_token),
                },
            ]
            &&& after.cred_hide_token == app.cred_hide_token + 1
            &&& after.on_tab(AppMessage::HideCredential(after.cred_hide_token)).0.screen matches
                ScreenModel::Main(s) && s.revealed_credential is None
        }),
{
    let p = |t: TabModel| t.id == app.active_tab_id;
    assert(model::first_at(app.tabs, p, i));
    model::lemma_first_index_some(app.tabs, p, i);
}

/// A credential that is copied goes to the clipboard unchanged, and the timer
/// that is set for forty-five seconds later takes back exactly that text.
pub proof fn law_copied_credential_is_taken_back(app: AppModel, c: String)
    requires
        app.screen is Main,
        app.clipboard_token < u64::MAX,
    ensures
        ({
            let (after, asked) = app.on_tab(AppMessage::CopyCredential(c));
            let (later, then) = after.on_tab(AppMessage::ClearClipboard(after.clipboard_token));
            &&& asked == seq![
                CommandModel::WriteClipboard(c@),
                CommandModel::After {
                    seconds: 45,
                    timer: Timer::ClearClipboard(after.clipboard_token),
                },
            ]
            &&& after.clipboard_token == app.clipboard_token + 1
            &&& after.screen matches ScreenModel::Main(s) && s.credential_copied
                && s.revealed_credential == app.screen->Main_0.revealed_credential
            &&& then == seq![CommandModel::ClearClipboardIf(c@)]
            &&& later.clipboard_guard is None
            &&& later.screen matches ScreenModel::Main(s) && !s.credential_copied
        }),
{
}

} // verus!
