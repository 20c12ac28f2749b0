//! How a message finds what handles it.
use vstd::prelude::*;

use crate::app::AppModel;
use crate::app::message::{AppMessage, CommandModel};

verus! {

impl AppModel {
    /// What a message for terminals does.
    pub open spec fn on_terminal(self, m: AppMessage) -> (AppModel, Seq<CommandModel>) {
        self.terminal_step(m)->0
    }

    /// What a message for the connection or the vault does.
    pub open spec fn on_connection(self, m: AppMessage) -> (AppModel, Seq<CommandModel>) {
        self.connection_step(m)->0
    }

    /// What a message for tabs, hosts or credentials does.
    pub open spec fn on_tab(self, m: AppMessage) -> (AppModel, Seq<CommandModel>) {
        self.tab_step(m)->0
    }

    /// What a message for a field of the editor does.
    pub open spec fn on_field(self, m: AppMessage) -> (AppModel, Seq<CommandModel>) {
        self.field_step(m)->0
    }

    /// What a message for the editor does.
    pub open spec fn on_editor(self, m: AppMessage) -> (AppModel, Seq<CommandModel>) {
        self.editor_step(m)->0
    }

    /// What a message for syncing does.
    pub open spec fn on_sync(self, m: AppMessage) -> (AppModel, Seq<CommandModel>) {
        self.sync_step(m)->0
    }
}

/// A message is handled as what it is about.
pub proof fn law_messages_are_handled(app: AppModel, m: AppMessage)
    ensures
        app.terminal_step(m) is Some ==> app.step(m) == app.on_terminal(m),
        app.connection_step(m) is Some ==> app.step(m) == app.on_connection(m),
        app.tab_step(m) is Some ==> app.step(m) == app.on_tab(m),
        app.field_step(m) is Some ==> app.step(m) == app.on_field(m),
        app.editor_step(m) is Some ==> app.step(m) == app.on_editor(m),
        app.sync_step(m) is Some ==> app.step(m) == app.on_sync(m),
{
    lemma_terminal_alone(app, m);
    lemma_connection_alone(app, m);
    lemma_tab_alone(app, m);
    lemma_field_alone(app, m);
    lemma_sync_alone(app, m);
}

proof fn lemma_terminal_alone(app: AppModel, m: AppMessage)
    ensures
        app.connection_step(m) is Some || app.tab_step(m) is Some || app.field_step(m) is Some
            || app.editor_step(m) is Some || app.sync_step(m) is Some ==> app.terminal_step(m)
            is None,
{
}

proof fn lemma_connection_alone(app: AppModel, m: AppMessage)
    ensures
        app.tab_step(m) is Some || app.field_step(m) is Some || app.editor_step(m) is Some
            || app.sync_step(m) is Some ==> app.connection_step(m) is None,
{
}

proof fn lemma_tab_alone(app: AppModel, m: AppMessage)
    ensures
        app.field_step(m) is Some || app.editor_step(m) is Some || app.sync_step(m) is Some
            ==> app.tab_step(m) is None,
{
}

proof fn lemma_field_alone(app: AppModel, m: AppMessage)
    ensures
        app.editor_step(m) is Some || app.sync_step(m) is Some ==> app.field_step(m) is None,
{
}

proof fn lemma_sync_alone(app: AppModel, m: AppMessage)
    ensures
        app.sync_step(m) is Some ==> app.editor_step(m) is None && app.choice_step(m) is None
            && app.settings_step(m) is None,
{
}

} // verus!
