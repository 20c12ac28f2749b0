//! The screen in which the vault is unlocked.
use vstd::prelude::*;

use crate::strings;
use crate::text::{I18n, Lang, SpanModel, Text};
use crate::text;

verus! {

/// The id of the field for the passphrase.
pub const UNLOCK_PASSPHRASE_ID: &'static str = "unlock_passphrase";

/// How long the vault may be opened again without the passphrase.
#[derive(Debug, Clone, Copy, PartialEq, Eq, Structural)]
pub enum RememberDuration {
    Never,
    OneMinute,
    FiveMinutes,
    FifteenMinutes,
    OneHour,
    OneDay,
    SevenDays,
}

impl RememberDuration {
    pub open spec fn in_seconds(self) -> Option<u64> {
        match self {
            RememberDuration::Never => None,
            RememberDuration::OneMinute => Some(60),
            RememberDuration::FiveMinutes => Some(300),
            RememberDuration::FifteenMinutes => Some(900),
            RememberDuration::OneHour => Some(3_600),
            RememberDuration::OneDay => Some(86_400),
            RememberDuration::SevenDays => Some(604_800),
        }
    }

    pub open spec fn key(self) -> Seq<char> {
        match self {
            RememberDuration::Never => "unlock_remember_never"@,
            RememberDuration::OneMinute => "unlock_remember_1m"@,
            RememberDuration::FiveMinutes => "unlock_remember_5m"@,
            RememberDuration::FifteenMinutes => "unlock_remember_15m"@,
            RememberDuration::OneHour => "unlock_remember_1h"@,
            RememberDuration::OneDay => "unlock_remember_1d"@,
            RememberDuration::SevenDays => "unlock_remember_7d"@,
        }
    }

    /// The choices, the shortest first.
    pub fn all() -> (res: Vec<RememberDuration>)
        ensures
            res@ == seq![
                RememberDuration::Never,
                RememberDuration::OneMinute,
                RememberDuration::FiveMinutes,
                RememberDuration::FifteenMinutes,
                RememberDuration::OneHour,
                RememberDuration::OneDay,
                RememberDuration::SevenDays,
            ],
    {
        let mut out: Vec<RememberDuration> = Vec::new();
        out.push(RememberDuration::Never);
        out.push(RememberDuration::OneMinute);
        out.push(RememberDuration::FiveMinutes);
        out.push(RememberDuration::FifteenMinutes);
        out.push(RememberDuration::OneHour);
        out.push(RememberDuration::OneDay);
        out.push(RememberDuration::SevenDays);
        out
    }

    pub fn seconds(self) -> (res: Option<u64>)
        ensures
            res == self.in_seconds(),
    {
        match self {
            RememberDuration::Never => None,
            RememberDuration::OneMinute => Some(60),
            RememberDuration::FiveMinutes => Some(5 * 60),
            RememberDuration::FifteenMinutes => Some(15 * 60),
            RememberDuration::OneHour => Some(60 * 60),
            RememberDuration::OneDay => Some(24 * 60 * 60),
            RememberDuration::SevenDays => Some(7 * 24 * 60 * 60),
        }
    }

    /// The key of the name of the choice.
    pub fn label_key(self) -> (res: &'static str)
        ensures
            res@ == self.key(),
    {
        match self {
            RememberDuration::Never => "unlock_remember_never",
            RememberDuration::OneMinute => "unlock_remember_1m",
            RememberDuration::FiveMinutes => "unlock_remember_5m",
            RememberDuration::FifteenMinutes => "unlock_remember_15m",
            RememberDuration::OneHour => "unlock_remember_1h",
            RememberDuration::OneDay => "unlock_remember_1d",
            RememberDuration::SevenDays => "unlock_remember_7d",
        }
    }
}

#[derive(Debug)]
pub struct State {
    pub passphrase: String,
    pub remember_duration: RememberDuration,
    pub error: Option<String>,
    pub error_category: Option<String>,
    pub unlocking: bool,
    pub toast_visible: bool,
}

#[verifier::ext_equal]
pub struct StateModel {
    pub passphrase: Seq<char>,
    pub remember_duration: RememberDuration,
    pub error: Option<Seq<char>>,
    pub error_category: Option<Seq<char>>,
    pub unlocking: bool,
    pub toast_visible: bool,
}

impl View for State {
    type V = StateModel;

    open spec fn view(&self) -> StateModel {
        StateModel {
            passphrase: self.passphrase@,
            remember_duration: self.remember_duration,
            error: strings::opt_text(self.error),
            error_category: strings::opt_text(self.error_category),
            unlocking: self.unlocking,
            toast_visible: self.toast_visible,
        }
    }
}

impl StateModel {
    pub open spec fn blank() -> StateModel {
        StateModel {
            passphrase: Seq::empty(),
            remember_duration: RememberDuration::Never,
            error: None,
            error_category: None,
            unlocking: false,
            toast_visible: false,
        }
    }

    pub open spec fn can_unlock(self) -> bool {
        self.passphrase.len() > 0 && !self.unlocking
    }

    /// The message of the error: the translation of its category, where it has
    /// one with a translation.
    pub open spec fn message(self, lang: Lang) -> Seq<SpanModel> {
        match (self.error, self.error_category) {
            (Some(error), Some(category)) => seq![
                SpanModel::TranslatedOr { lang, key: "error_"@ + category, fallback: error },
            ],
            (Some(error), None) => text::plain(error),
            _ => Seq::empty(),
        }
    }
}

/// What the screen shows of its state.
#[derive(Debug)]
pub struct Shown {
    pub can_unlock: bool,
    pub marks_error: bool,
    pub unlocking: bool,
    pub message: Text,
    pub toast_visible: bool,
}

impl State {
    pub fn new() -> (res: Self)
        ensures
            res@ == StateModel::blank(),
    {
        let res = State {
            passphrase: String::new(),
            remember_duration: RememberDuration::Never,
            error: None,
            error_category: None,
            unlocking: false,
            toast_visible: false,
        };
        proof {
            assert(res@.passphrase =~= Seq::<char>::empty());
        }
        res
    }

    pub fn shown(&self, i18n: &I18n) -> (res: Shown)
        ensures
            res.can_unlock == self@.can_unlock(),
            res.marks_error == self.error is Some,
            res.unlocking == self.unlocking,
            res.message@ == self@.message(i18n.lang),
            res.toast_visible == self.toast_visible,
    {
        let message = match (&self.error, &self.error_category) {
            (Some(error), Some(category)) => Text::translated_or(
                i18n.lang,
                strings::concat("error_", category.as_str()),
                error.clone(),
            ),
            (Some(error), None) => Text::plain(error.clone()),
            _ => Text::empty(),
        };
        Shown {
            can_unlock: !self.passphrase.as_str().is_empty() && !self.unlocking,
            marks_error: self.error.is_some(),
            unlocking: self.unlocking,
            message,
            toast_visible: self.toast_visible,
        }
    }
}

/// A passphrase is kept for as long as its name says, in seconds.
pub proof fn law_durations()
    ensures
        RememberDuration::Never.in_seconds() is None,
        RememberDuration::OneMinute.in_seconds() == Some(60u64),
        RememberDuration::FiveMinutes.in_seconds()->0 == 5 * RememberDuration::OneMinute.in_seconds()->0,
        RememberDuration::FifteenMinutes.in_seconds()->0 == 15
            * RememberDuration::OneMinute.in_seconds()->0,
        RememberDuration::OneHour.in_seconds()->0 == 60 * RememberDuration::OneMinute.in_seconds()->0,
        RememberDuration::OneDay.in_seconds()->0 == 24 * RememberDuration::OneHour.in_seconds()->0,
        RememberDuration::SevenDays.in_seconds()->0 == 7 * RememberDuration::OneDay.in_seconds()->0,
        forall|d: RememberDuration| #[trigger] d.in_seconds() is None <==> d is Never,
{
}

/// An error is told by its kind where it has one, and by its own words where it
/// has none or its kind has no translation.
pub proof fn law_error_is_told(s: StateModel, lang: Lang)
    ensures
        s.error is None ==> s.message(lang).len() == 0,
        s.error is Some && s.error_category is None ==> s.message(lang) == seq![
            SpanModel::Plain(s.error->0),
        ],
        s.error is Some && s.error_category is Some ==> s.message(lang) == seq![
            SpanModel::TranslatedOr {
                lang,
                key: "error_"@ + s.error_category->0,
                fallback: s.error->0,
            },
        ],
        s.can_unlock() <==> s.passphrase.len() > 0 && !s.unlocking,
{
}

} // verus!
