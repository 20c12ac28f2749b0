//! The settings and the language.
use vstd::prelude::*;

use crate::app::message;
use crate::app::message::{
    CallModel,
    Command,
    CommandModel,
    DaemonCall,
    Pending,
    PendingModel,
    QuickResult,
};
use crate::app::{AppModel, VidaApp};
use crate::screens;
use crate::screens::s5_settings;
use crate::screens::s5_settings::{LangChoice, Loaded, SettingsSection, StateModel, SyncMode};
use crate::screens::{Tab, TabKind, TabKindModel, TabModel};
use crate::strings;
use crate::text;
use crate::text::{I18n, Lang, Text};

verus! {

/// The language of a choice.
pub open spec fn chosen_lang(choice: LangChoice, system: Lang) -> Lang {
    match choice {
        LangChoice::System => system,
        LangChoice::ZhCn => Lang::ZhCn,
        LangChoice::En => Lang::En,
    }
}

/// The tab with its name in a language; those of hosts keep theirs.
pub open spec fn renamed(tab: TabModel, lang: Lang) -> TabModel {
    TabModel {
        name: match tab.kind {
            TabKindModel::Settings => text::tr(lang, "main_tab_settings"@),
            TabKindModel::AddHost => text::tr(lang, "main_add_host_tab"@),
            TabKindModel::Terminal { number, .. } => text::trf1(
                lang,
                "terminal_local_numbered"@,
                strings::decimal(number as nat),
            ),
            _ => tab.name,
        },
        ..tab
    }
}

/// The tabs with their names in a language.
pub open spec fn renamed_all(tabs: Seq<TabModel>, lang: Lang) -> Seq<TabModel> {
    Seq::new(tabs.len(), |i: int| renamed(tabs[i], lang))
}

impl AppModel {
    /// The settings were loaded; terminals look as they say from now on.
    pub open spec fn settings_loaded(self, loaded: Loaded) -> AppModel {
        let state = StateModel::of(loaded);
        AppModel {
            terminal_appearance: state.appearance(),
            settings_state: Some(state),
            ..self
        }
    }

    /// The application with other settings, where they are loaded.
    pub open spec fn with_settings(self, f: spec_fn(StateModel) -> StateModel) -> AppModel {
        match self.settings_state {
            Some(s) => AppModel { settings_state: Some(f(s)), ..self },
            None => self,
        }
    }

    /// Another language, at once: the choice is kept, and the tabs are renamed.
    pub open spec fn language_changed(self, choice: LangChoice, system: Lang) -> (
        AppModel,
        Seq<CommandModel>,
    ) {
        let lang = chosen_lang(choice, system);
        (
            AppModel {
                lang,
                tabs: renamed_all(self.tabs, lang),
                ..self.with_settings(|s: StateModel| StateModel { language: choice, ..s })
            },
            seq![CommandModel::SaveLanguage(choice)],
        )
    }

    /// A place to sync to was looked for.
    pub open spec fn quick_location(self, result: QuickResult) -> AppModel {
        let lang = self.lang;
        self.with_settings(
            |s: StateModel|
                match result {
                    QuickResult::Path(path) => StateModel {
                        sync_local_path: path@,
                        saved: false,
                        ..s
                    },
                    QuickResult::ICloudMissing => StateModel {
                        error: Some(text::tr(lang, "settings_sync_icloud_not_found"@)),
                        ..s
                    },
                    QuickResult::CreateFailed(error) => StateModel {
                        error: Some(
                            text::tr(lang, "settings_sync_create_dir_failed"@) + text::plain(": "@)
                                + text::plain(error@),
                        ),
                        ..s
                    },
                },
        )
    }

    /// Something is asked for while the settings are loaded.
    pub open spec fn ask_with_settings(self, command: CommandModel) -> Seq<CommandModel> {
        if self.settings_state is Some {
            seq![command]
        } else {
            Seq::empty()
        }
    }

    /// The settings are saved; what no page shows stays.
    pub open spec fn settings_save(self) -> (AppModel, Seq<CommandModel>) {
        match self.settings_state {
            Some(s) => (
                AppModel {
                    settings_state: Some(
                        StateModel {
                            error: None,
                            saving: true,
                            vault_settings: s.to_save(),
                            ..s
                        },
                    ),
                    ..self
                },
                seq![
                    CommandModel::Call {
                        request: CallModel::UpdateSettings(s.to_save()),
                        pending: PendingModel::SettingsSaved,
                    },
                ],
            ),
            None => (self, Seq::empty()),
        }
    }

    /// The settings were saved; terminals look as they say from now on.
    pub open spec fn settings_saved(self) -> AppModel {
        match self.settings_state {
            Some(s) => AppModel {
                terminal_appearance: s.appearance(),
                settings_state: Some(
                    StateModel {
                        saving: false,
                        saved: true,
                        vault_settings: s5_settings::VaultModel {
                            terminal_font_family: s.appearance().font_family,
                            terminal_font_size: s.appearance().font_size,
                            terminal_cursor_blink: s.appearance().cursor_blink,
                            ..s.vault_settings
                        },
                        ..s
                    },
                ),
                ..self
            },
            None => self,
        }
    }

    pub open spec fn settings_section(self, section: SettingsSection) -> AppModel {
        self.with_settings(
            |s: StateModel|
                StateModel { active_section: section, saved: false, error: None, ..s },
        )
    }

    pub open spec fn settings_sync_mode(self, mode: SyncMode) -> AppModel {
        self.with_settings(
            |s: StateModel|
                StateModel {
                    sync_mode: mode,
                    sync_local_path: if mode == SyncMode::Off {
                        Seq::empty()
                    } else {
                        s.sync_local_path
                    },
                    saved: false,
                    ..s
                },
        )
    }

    pub open spec fn settings_sync_path(self, path: Seq<char>) -> AppModel {
        self.with_settings(
            |s: StateModel| StateModel { sync_local_path: path, saved: false, ..s },
        )
    }

    pub open spec fn settings_scrollback(self, v: Seq<char>) -> AppModel {
        self.with_settings(
            |s: StateModel| StateModel { scrollback_lines: v, saved: false, ..s },
        )
    }

    pub open spec fn settings_font_family(self, v: Seq<char>) -> AppModel {
        self.with_settings(
            |s: StateModel| StateModel { terminal_font_family: v, saved: false, ..s },
        )
    }

    pub open spec fn settings_font_size(self, v: u16) -> AppModel {
        self.with_settings(
            |s: StateModel| StateModel { terminal_font_size: v, saved: false, ..s },
        )
    }

    pub open spec fn settings_cursor_blink(self, v: bool) -> AppModel {
        self.with_settings(
            |s: StateModel| StateModel { terminal_cursor_blink: v, saved: false, ..s },
        )
    }
}

fn rename_tab(tab: &Tab, i18n: &I18n) -> (res: Tab)
    ensures
        res@ == renamed(tab@, i18n.lang),
{
    let name = match &tab.kind {
        TabKind::Settings => i18n.tr("main_tab_settings"),
        TabKind::AddHost => i18n.tr("main_add_host_tab"),
        TabKind::Terminal { session_id: _, number } => i18n.trf1(
            "terminal_local_numbered",
            strings::decimal_text(*number as u64),
        ),
        _ => tab.name.clone(),
    };
    Tab { id: tab.id.clone(), name, kind: tab.kind.clone() }
}

impl VidaApp {
    pub fn settings_loaded(&mut self, loaded: Loaded)
        ensures
            final(self)@ == old(self)@.settings_loaded(loaded),
    {
        let state = s5_settings::State::from_json(loaded);
        self.terminal_appearance = state.terminal_appearance();
        self.settings_state = Some(state);
    }

    pub fn language_changed(&mut self, choice: LangChoice, system: Lang) -> (res: Vec<Command>)
        ensures
            (final(self)@, message::command_models(res@)) == old(self)@.language_changed(
                choice,
                system,
            ),
    {
        if let Some(s) = &mut self.settings_state {
            s.language = choice;
        }
        let lang = match choice {
            LangChoice::System => system,
            LangChoice::ZhCn => Lang::ZhCn,
            LangChoice::En => Lang::En,
        };
        self.i18n = I18n::new(lang);
        let mut tabs: Vec<Tab> = Vec::new();
        let mut i: usize = 0;
        while i < self.tabs.len()
            invariant
                i <= self.tabs@.len(),
                self.i18n.lang == lang,
                tabs@.len() == i,
                forall|k: int| 0 <= k < i ==> (#[trigger] tabs@[k])@ == renamed(self.tabs@[k]@, lang),
            decreases self.tabs@.len() - i,
        {
            tabs.push(rename_tab(&self.tabs[i], &self.i18n));
            i += 1;
        }
        proof {
            assert(screens::tab_models(tabs@) =~= renamed_all(
                screens::tab_models(self.tabs@),
                lang,
            ));
        }
        self.tabs = tabs;
        message::one(Command::SaveLanguage(choice))
    }

    pub fn settings_section(&mut self, section: SettingsSection)
        ensures
            final(self)@ == old(self)@.settings_section(section),
    {
        if let Some(s) = &mut self.settings_state {
            s.active_section = section;
            s.saved = false;
            s.error = None;
        }
    }

    pub fn settings_sync_mode(&mut self, mode: SyncMode)
        ensures
            final(self)@ == old(self)@.settings_sync_mode(mode),
    {
        if let Some(s) = &mut self.settings_state {
            s.sync_mode = mode;
            if mode == SyncMode::Off {
                s.sync_local_path = String::new();
                proof {
                    assert(s.sync_local_path@ =~= Seq::<char>::empty());
                }
            }
            s.saved = false;
        }
    }

    pub fn settings_sync_path(&mut self, path: String)
        ensures
            final(self)@ == old(self)@.settings_sync_path(path@),
    {
        if let Some(s) = &mut self.settings_state {
            s.sync_local_path = path;
            s.saved = false;
        }
    }

    pub fn quick_location(&mut self, result: QuickResult)
        ensures
            final(self)@ == old(self)@.quick_location(result),
    {
        let i18n = self.i18n;
        if let Some(s) = &mut self.settings_state {
            match result {
                QuickResult::Path(path) => {
                    s.sync_local_path = path;
                    s.saved = false;
                },
                QuickResult::ICloudMissing => {
                    s.error = Some(i18n.tr("settings_sync_icloud_not_found"));
                },
                QuickResult::CreateFailed(error) => {
                    let mut message = i18n.tr("settings_sync_create_dir_failed");
                    message.push(Text::plain(": ".to_string()));
                    message.push(Text::plain(error));
                    s.error = Some(message);
                },
            }
        }
    }

    pub fn settings_scrollback(&mut self, v: String)
        ensures
            final(self)@ == old(self)@.settings_scrollback(v@),
    {
        if let Some(s) = &mut self.settings_state {
            s.scrollback_lines = v;
            s.saved = false;
        }
    }

    pub fn settings_font_family(&mut self, v: String)
        ensures
            final(self)@ == old(self)@.settings_font_family(v@),
    {
        if let Some(s) = &mut self.settings_state {
            s.terminal_font_family = v;
            s.saved = false;
        }
    }

    pub fn settings_font_size(&mut self, v: u16)
        ensures
            final(self)@ == old(self)@.settings_font_size(v),
    {
        if let Some(s) = &mut self.settings_state {
            s.terminal_font_size = v;
            s.saved = false;
        }
    }

    pub fn settings_cursor_blink(&mut self, v: bool)
        ensures
            final(self)@ == old(self)@.settings_cursor_blink(v),
    {
        if let Some(s) = &mut self.settings_state {
            s.terminal_cursor_blink = v;
            s.saved = false;
        }
    }

    /// Something is asked for while the settings are loaded.
    pub fn ask_with_settings(&self, command: Command) -> (res: Vec<Command>)
        ensures
            message::command_models(res@) == self@.ask_with_settings(command@),
    {
        if self.settings_state.is_some() {
            message::one(command)
        } else {
            message::nothing()
        }
    }

    pub fn settings_save(&mut self) -> (res: Vec<Command>)
        ensures
            (final(self)@, message::command_models(res@)) == old(self)@.settings_save(),
    {
        if let Some(s) = &mut self.settings_state {
            let settings = s.settings_to_save();
            s.error = None;
            s.saving = true;
            s.vault_settings = settings.clone();
            message::one(
                Command::Call {
                    request: DaemonCall::UpdateSettings(settings),
                    pending: Pending::SettingsSaved,
                },
            )
        } else {
            message::nothing()
        }
    }

    pub fn settings_saved(&mut self)
        ensures
            final(self)@ == old(self)@.settings_saved(),
    {
        if let Some(s) = &mut self.settings_state {
            s.saving = false;
            s.saved = true;
            let appearance = s.terminal_appearance();
            s.vault_settings.terminal_font_family = appearance.font_family.clone();
            s.vault_settings.terminal_font_size = appearance.font_size;
            s.vault_settings.terminal_cursor_blink = appearance.cursor_blink;
            self.terminal_appearance = appearance;
        }
    }
}

/// A change of language renames no tab of a host, and changes no id and no kind
/// of a tab.
pub proof fn law_language_keeps_tabs(app: AppModel, choice: LangChoice, system: Lang, i: int)
    requires
        0 <= i < app.tabs.len(),
    ensures
        ({
            let after = app.language_changed(choice, system).0;
            &&& after.tabs.len() == app.tabs.len()
            &&& after.tabs[i].id == app.tabs[i].id
            &&& after.tabs[i].kind == app.tabs[i].kind
            &&& app.tabs[i].kind is Host ==> after.tabs[i] == app.tabs[i]
        }),
{
}

/// In another language the tabs that the application names itself have the name
/// of that language, terminals with their numbers; those of hosts keep theirs,
/// and every tab keeps its id and its kind.
pub proof fn law_tabs_take_the_language(tab: TabModel, lang: Lang)
    ensures
        ({
            let after = renamed(tab, lang);
            &&& after.id == tab.id
            &&& after.kind == tab.kind
            &&& tab.kind is Host || tab.kind is EditHost ==> after.name == tab.name
            &&& tab.kind is Settings ==> after.name == seq![
                text::SpanModel::Translated {
                    lang,
                    key: "main_tab_settings"@,
                    args: Seq::empty(),
                },
            ]
            &&& tab.kind is AddHost ==> after.name == seq![
                text::SpanModel::Translated {
                    lang,
                    key: "main_add_host_tab"@,
                    args: Seq::empty(),
                },
            ]
            &&& tab.kind matches TabKindModel::Terminal { number, session_id: _ } ==> after.name
                == seq![
                text::SpanModel::Translated {
                    lang,
                    key: "terminal_local_numbered"@,
                    args: seq![text::ArgModel::Plain(strings::decimal(number as nat))],
                },
            ]
        }),
        chosen_lang(LangChoice::ZhCn, lang) == Lang::ZhCn,
        chosen_lang(LangChoice::En, lang) == Lang::En,
        chosen_lang(LangChoice::System, lang) == lang,
{
}

} // verus!
