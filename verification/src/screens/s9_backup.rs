//! The part of the settings in which backups are made and restored.
use vstd::prelude::*;

use crate::strings;
use crate::text;
use crate::text::{I18n, Lang, SpanModel, Text};

verus! {

/// What a backup holds, as far as it was looked into.
#[derive(Debug)]
pub struct RestorePreview {
    pub host_count: usize,
    pub modified_at: String,
    pub host_names: Vec<String>,
}

#[verifier::ext_equal]
pub struct PreviewModel {
    pub host_count: usize,
    pub modified_at: Seq<char>,
    pub host_names: Seq<Seq<char>>,
}

impl View for RestorePreview {
    type V = PreviewModel;

    open spec fn view(&self) -> PreviewModel {
        PreviewModel {
            host_count: self.host_count,
            modified_at: self.modified_at@,
            host_names: strings::texts(self.host_names@),
        }
    }
}

#[derive(Debug)]
pub struct State {
    pub export_passphrase: String,
    pub use_current: bool,
    pub exporting: bool,
    pub result: Option<Text>,
    pub error: Option<Text>,
    pub restore_path: String,
    pub restore_passphrase: String,
    pub restore_data: Vec<u8>,
    pub restore_preview: Option<RestorePreview>,
    pub restore_validating: bool,
    pub restoring: bool,
    pub restore_result: Option<Text>,
    pub restore_error: Option<Text>,
}

#[verifier::ext_equal]
pub struct StateModel {
    pub export_passphrase: Seq<char>,
    pub use_current: bool,
    pub exporting: bool,
    pub result: Option<Seq<SpanModel>>,
    pub error: Option<Seq<SpanModel>>,
    pub restore_path: Seq<char>,
    pub restore_passphrase: Seq<char>,
    pub restore_data: Seq<u8>,
    pub restore_preview: Option<PreviewModel>,
    pub restore_validating: bool,
    pub restoring: bool,
    pub restore_result: Option<Seq<SpanModel>>,
    pub restore_error: Option<Seq<SpanModel>>,
}

/// The preview, if there is one.
pub open spec fn preview_model(p: Option<RestorePreview>) -> Option<PreviewModel> {
    match p {
        Some(preview) => Some(preview@),
        None => None,
    }
}

impl View for State {
    type V = StateModel;

    open spec fn view(&self) -> StateModel {
        StateModel {
            export_passphrase: self.export_passphrase@,
            use_current: self.use_current,
            exporting: self.exporting,
            result: text::opt_spans(self.result),
            error: text::opt_spans(self.error),
            restore_path: self.restore_path@,
            restore_passphrase: self.restore_passphrase@,
            restore_data: self.restore_data@,
            restore_preview: preview_model(self.restore_preview),
            restore_validating: self.restore_validating,
            restoring: self.restoring,
            restore_result: text::opt_spans(self.restore_result),
            restore_error: text::opt_spans(self.restore_error),
        }
    }
}

impl StateModel {
    pub open spec fn blank() -> StateModel {
        StateModel {
            export_passphrase: Seq::empty(),
            use_current: true,
            exporting: false,
            result: None,
            error: None,
            restore_path: Seq::empty(),
            restore_passphrase: Seq::empty(),
            restore_data: Seq::empty(),
            restore_preview: None,
            restore_validating: false,
            restoring: false,
            restore_result: None,
            restore_error: None,
        }
    }

    /// The state without anything that was learnt of a backup: it is bound to
    /// the file and the passphrase that were looked at.
    pub open spec fn unvalidated(self) -> StateModel {
        StateModel {
            restore_data: Seq::empty(),
            restore_preview: None,
            restore_result: None,
            restore_error: None,
            ..self
        }
    }

    pub open spec fn can_export(self) -> bool {
        !self.exporting && (self.use_current || self.export_passphrase.len() > 0)
    }

    pub open spec fn can_validate(self) -> bool {
        &&& self.restore_path.len() > 0
        &&& self.restore_passphrase.len() > 0
        &&& !self.restore_validating
        &&& !self.restoring
    }

    /// The names of the hosts of a preview.
    pub open spec fn names_text(preview: PreviewModel, lang: Lang) -> ArgText {
        if preview.host_names.len() == 0 {
            ArgText::Key("backup_restore_empty"@)
        } else {
            ArgText::Plain(strings::joined(preview.host_names, "\u{3001}"@))
        }
    }
}

/// The list of host names, or the key of the text in its place.
pub enum ArgText {
    Key(Seq<char>),
    Plain(Seq<char>),
}

/// What is shown of a preview.
#[derive(Debug)]
pub struct ShownPreview {
    pub summary: Text,
    pub hosts: Text,
    pub can_confirm: bool,
}

/// What the page shows of its state.
#[derive(Debug)]
pub struct Shown {
    pub can_export: bool,
    /// The label of the button is that of an export under way.
    pub exporting: bool,
    /// The path of the backup; `None` where no file was chosen.
    pub path: Option<String>,
    pub can_validate: bool,
    pub validating: bool,
    pub preview: Option<ShownPreview>,
    pub restoring: bool,
}

/// The summary and the list of hosts of a preview.
pub open spec fn preview_texts(p: PreviewModel, lang: Lang) -> (Seq<SpanModel>, Seq<SpanModel>) {
    (
        text::trf2(
            lang,
            "backup_restore_preview"@,
            strings::decimal(p.host_count as nat),
            p.modified_at,
        ),
        seq![
            SpanModel::Translated {
                lang,
                key: "backup_restore_hosts"@,
                args: seq![
                    match StateModel::names_text(p, lang) {
                        ArgText::Key(key) => text::ArgModel::Key(key),
                        ArgText::Plain(names) => text::ArgModel::Plain(names),
                    },
                ],
            },
        ],
    )
}

impl State {
    pub fn new() -> (res: Self)
        ensures
            res@ == StateModel::blank(),
    {
        let res = State {
            export_passphrase: String::new(),
            use_current: true,
            exporting: false,
            result: None,
            error: None,
            restore_path: String::new(),
            restore_passphrase: String::new(),
            restore_data: Vec::new(),
            restore_preview: None,
            restore_validating: false,
            restoring: false,
            restore_result: None,
            restore_error: None,
        };
        proof {
            assert(res@.export_passphrase =~= Seq::<char>::empty());
            assert(res@.restore_path =~= Seq::<char>::empty());
            assert(res@.restore_passphrase =~= Seq::<char>::empty());
            assert(res@.restore_data =~= Seq::<u8>::empty());
        }
        res
    }

    /// Forgets what was learnt of a backup.
    pub fn forget_validation(&mut self)
        ensures
            final(self)@ == old(self)@.unvalidated(),
    {
        self.restore_data = Vec::new();
        self.restore_preview = None;
        self.restore_result = None;
        self.restore_error = None;
        proof {
            assert(self@.restore_data =~= Seq::<u8>::empty());
        }
    }

    /// What the page shows.
    pub fn view_settings_content(&self, i18n: &I18n) -> (res: Shown)
        ensures
            res.can_export == self@.can_export(),
            res.exporting == self.exporting,
            strings::opt_text(res.path) == (if self@.restore_path.len() == 0 {
                None
            } else {
                Some(self@.restore_path)
            }),
            res.can_validate == self@.can_validate(),
            res.validating == self.restore_validating,
            res.restoring == self.restoring,
            match res.preview {
                Some(shown) => self@.restore_preview is Some && (shown.summary@, shown.hosts@)
                    == preview_texts(self@.restore_preview->0, i18n.lang) && shown.can_confirm
                    == !self.restoring,
                None => self@.restore_preview is None,
            },
    {
        let path: Option<String> = if self.restore_path.as_str().is_empty() {
            None
        } else {
            Some(self.restore_path.clone())
        };
        let preview = match &self.restore_preview {
            Some(p) => {
                let mut args: Vec<text::Arg> = Vec::new();
                if p.host_names.len() == 0 {
                    args.push(text::Arg::Key("backup_restore_empty".to_string()));
                } else {
                    args.push(text::Arg::Plain(strings::join(&p.host_names, "\u{3001}")));
                }
                let summary = i18n.trf2(
                    "backup_restore_preview",
                    strings::decimal_text(p.host_count as u64),
                    p.modified_at.clone(),
                );
                let hosts = i18n.trf("backup_restore_hosts", args);
                proof {
                    assert(text::arg_models(args@) =~= preview_texts(p@, i18n.lang).1[0]->args);
                }
                Some(ShownPreview { summary, hosts, can_confirm: !self.restoring })
            },
            None => None,
        };
        Shown {
            can_export: !self.exporting && (self.use_current
                || !self.export_passphrase.as_str().is_empty()),
            exporting: self.exporting,
            path,
            can_validate: !self.restore_path.as_str().is_empty()
                && !self.restore_passphrase.as_str().is_empty() && !self.restore_validating
                && !self.restoring,
            validating: self.restore_validating,
            preview,
            restoring: self.restoring,
        }
    }
}

/// A backup can be made with the passphrase of the vault or with one that was
/// typed, and looked into once a file and a passphrase are given; one thing at a
/// time.
pub proof fn law_when_backups_can_be_made(s: StateModel)
    ensures
        s.exporting ==> !s.can_export(),
        !s.exporting && s.use_current ==> s.can_export(),
        !s.exporting && !s.use_current ==> (s.can_export() <==> s.export_passphrase.len() > 0),
        s.can_validate() ==> s.restore_path.len() > 0 && s.restore_passphrase.len() > 0,
        s.restore_validating || s.restoring ==> !s.can_validate(),
        s.restore_path.len() > 0 && s.restore_passphrase.len() > 0 && !s.restore_validating
            && !s.restoring ==> s.can_validate(),
{
}

/// A preview tells the number of hosts, the time of the last change and the names
/// of the hosts.
pub proof fn law_preview_tells_what_was_seen(p: PreviewModel, lang: Lang)
    ensures
        preview_texts(p, lang).0 == seq![
            SpanModel::Translated {
                lang,
                key: "backup_restore_preview"@,
                args: seq![
                    text::ArgModel::Plain(strings::decimal(p.host_count as nat)),
                    text::ArgModel::Plain(p.modified_at),
                ],
            },
        ],
        p.host_names.len() > 0 ==> preview_texts(p, lang).1 == seq![
            SpanModel::Translated {
                lang,
                key: "backup_restore_hosts"@,
                args: seq![text::ArgModel::Plain(strings::joined(p.host_names, "\u{3001}"@))],
            },
        ],
        p.host_names.len() == 0 ==> preview_texts(p, lang).1 == seq![
            SpanModel::Translated {
                lang,
                key: "backup_restore_hosts"@,
                args: seq![text::ArgModel::Key("backup_restore_empty"@)],
            },
        ],
{
}

/// Another file or another passphrase asks for another look: nothing of the last
/// one is left.
pub proof fn law_other_file_is_not_seen_yet(s: StateModel)
    ensures
        s.unvalidated().restore_preview is None,
        s.unvalidated().restore_data.len() == 0,
        s.unvalidated().restore_path == s.restore_path,
        s.unvalidated().restore_passphrase == s.restore_passphrase,
        s.unvalidated().export_passphrase == s.export_passphrase,
{
}

} // verus!
