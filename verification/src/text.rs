//! Texts for the user. A text keeps the language, the key and the arguments of
//! each translated part; the words are looked up where the text is shown.
use vstd::prelude::*;

use crate::strings;

verus! {

/// A language of the user interface.
#[derive(Debug, Clone, Copy, PartialEq, Eq, Structural)]
pub enum Lang {
    ZhCn,
    En,
}

/// The language that texts are made in.
#[derive(Debug, Clone, Copy, PartialEq, Eq, Structural)]
pub struct I18n {
    pub lang: Lang,
}

/// An argument of a translated text: a text as it is, or a key that is
/// translated into the same language.
#[derive(Debug, PartialEq)]
pub enum Arg {
    Plain(String),
    Key(String),
}

/// A part of a text.
#[derive(Debug, PartialEq)]
pub enum Span {
    Plain(String),
    /// The translation of a key, with arguments for its places.
    Translated { lang: Lang, key: String, args: Vec<Arg> },
    /// The translation of a key, or another text where the key has none.
    TranslatedOr { lang: Lang, key: String, fallback: String },
}

/// A text for the user: its parts, one after another.
#[derive(Debug, PartialEq)]
pub struct Text {
    pub spans: Vec<Span>,
}

#[verifier::ext_equal]
pub enum ArgModel {
    Plain(Seq<char>),
    Key(Seq<char>),
}

#[verifier::ext_equal]
pub enum SpanModel {
    Plain(Seq<char>),
    Translated { lang: Lang, key: Seq<char>, args: Seq<ArgModel> },
    TranslatedOr { lang: Lang, key: Seq<char>, fallback: Seq<char> },
}

impl View for Arg {
    type V = ArgModel;

    open spec fn view(&self) -> ArgModel {
        match self {
            Arg::Plain(s) => ArgModel::Plain(s@),
            Arg::Key(s) => ArgModel::Key(s@),
        }
    }
}

/// The arguments of a list.
pub open spec fn arg_models(args: Seq<Arg>) -> Seq<ArgModel> {
    Seq::new(args.len(), |i: int| args[i]@)
}

impl View for Span {
    type V = SpanModel;

    open spec fn view(&self) -> SpanModel {
        match self {
            Span::Plain(s) => SpanModel::Plain(s@),
            Span::Translated { lang, key, args } => SpanModel::Translated {
                lang: *lang,
                key: key@,
                args: arg_models(args@),
            },
            Span::TranslatedOr { lang, key, fallback } => SpanModel::TranslatedOr {
                lang: *lang,
                key: key@,
                fallback: fallback@,
            },
        }
    }
}

/// The parts of a list.
pub open spec fn span_models(spans: Seq<Span>) -> Seq<SpanModel> {
    Seq::new(spans.len(), |i: int| spans[i]@)
}

impl View for Text {
    type V = Seq<SpanModel>;

    open spec fn view(&self) -> Seq<SpanModel> {
        span_models(self.spans@)
    }
}

/// A text as it is.
pub open spec fn plain(s: Seq<char>) -> Seq<SpanModel> {
    seq![SpanModel::Plain(s)]
}

/// The translation of a key.
pub open spec fn tr(lang: Lang, key: Seq<char>) -> Seq<SpanModel> {
    seq![SpanModel::Translated { lang, key, args: Seq::empty() }]
}

/// The translation of a key with arguments for its places.
pub open spec fn trf(lang: Lang, key: Seq<char>, args: Seq<ArgModel>) -> Seq<SpanModel> {
    seq![SpanModel::Translated { lang, key, args }]
}

/// The translation of a key with one argument.
pub open spec fn trf1(lang: Lang, key: Seq<char>, arg: Seq<char>) -> Seq<SpanModel> {
    seq![SpanModel::Translated { lang, key, args: seq![ArgModel::Plain(arg)] }]
}

/// The translation of a key with two arguments.
pub open spec fn trf2(lang: Lang, key: Seq<char>, a: Seq<char>, b: Seq<char>) -> Seq<SpanModel> {
    seq![SpanModel::Translated { lang, key, args: seq![ArgModel::Plain(a), ArgModel::Plain(b)] }]
}

/// The view of an optional text.
pub open spec fn opt_spans(text: Option<Text>) -> Option<Seq<SpanModel>> {
    match text {
        Some(t) => Some(t@),
        None => None,
    }
}

impl Clone for Arg {
    fn clone(&self) -> (copy: Self)
        ensures
            copy@ == self@,
    {
        match self {
            Arg::Plain(s) => Arg::Plain(s.clone()),
            Arg::Key(s) => Arg::Key(s.clone()),
        }
    }
}

fn clone_args(args: &Vec<Arg>) -> (copy: Vec<Arg>)
    ensures
        arg_models(copy@) == arg_models(args@),
{
    let mut out: Vec<Arg> = Vec::new();
    let mut i: usize = 0;
    while i < args.len()
        invariant
            i <= args@.len(),
            out@.len() == i,
            forall|k: int| 0 <= k < i ==> (#[trigger] out@[k])@ == args@[k]@,
        decreases args@.len() - i,
    {
        out.push(args[i].clone());
        i += 1;
    }
    proof {
        assert(arg_models(out@) =~= arg_models(args@));
    }
    out
}

impl Clone for Span {
    fn clone(&self) -> (copy: Self)
        ensures
            copy@ == self@,
    {
        match self {
            Span::Plain(s) => Span::Plain(s.clone()),
            Span::Translated { lang, key, args } => Span::Translated {
                lang: *lang,
                key: key.clone(),
                args: clone_args(args),
            },
            Span::TranslatedOr { lang, key, fallback } => Span::TranslatedOr {
                lang: *lang,
                key: key.clone(),
                fallback: fallback.clone(),
            },
        }
    }
}

impl Clone for Text {
    fn clone(&self) -> (copy: Self)
        ensures
            copy@ == self@,
    {
        let mut spans: Vec<Span> = Vec::new();
        let mut i: usize = 0;
        while i < self.spans.len()
            invariant
                i <= self.spans@.len(),
                spans@.len() == i,
                forall|k: int| 0 <= k < i ==> (#[trigger] spans@[k])@ == self.spans@[k]@,
            decreases self.spans@.len() - i,
        {
            spans.push(self.spans[i].clone());
            i += 1;
        }
        proof {
            assert(span_models(spans@) =~= span_models(self.spans@));
        }
        Text { spans }
    }
}

impl Text {
    fn single(span: Span) -> (res: Text)
        ensures
            res@ == seq![span@],
    {
        let mut spans: Vec<Span> = Vec::new();
        spans.push(span);
        proof {
            assert(span_models(spans@) =~= seq![span@]);
        }
        Text { spans }
    }

    /// A text as it is.
    pub fn plain(s: String) -> (res: Text)
        ensures
            res@ == plain(s@),
    {
        Text::single(Span::Plain(s))
    }

    /// An empty text.
    pub fn empty() -> (res: Text)
        ensures
            res@ == Seq::<SpanModel>::empty(),
    {
        let spans: Vec<Span> = Vec::new();
        proof {
            assert(span_models(spans@) =~= Seq::<SpanModel>::empty());
        }
        Text { spans }
    }

    /// The translation of a key, or another text where the key has none.
    pub fn translated_or(lang: Lang, key: String, fallback: String) -> (res: Text)
        ensures
            res@ == seq![SpanModel::TranslatedOr { lang, key: key@, fallback: fallback@ }],
    {
        Text::single(Span::TranslatedOr { lang, key, fallback })
    }

    /// Appends the parts of another text.
    pub fn push(&mut self, other: Text)
        ensures
            final(self)@ == old(self)@ + other@,
    {
        let ghost before = self@;
        let ghost tail = other@;
        let mut rest = other.spans;
        let ghost more = rest@;
        self.spans.append(&mut rest);
        proof {
            assert(self@ =~= before + span_models(more));
        }
    }
}

impl I18n {
    pub fn new(lang: Lang) -> (res: I18n)
        ensures
            res.lang == lang,
    {
        I18n { lang }
    }

    /// The translation of a key.
    pub fn tr(&self, key: &str) -> (res: Text)
        ensures
            res@ == tr(self.lang, key@),
    {
        let args: Vec<Arg> = Vec::new();
        proof {
            assert(arg_models(args@) =~= Seq::<ArgModel>::empty());
        }
        Text::single(Span::Translated { lang: self.lang, key: key.to_string(), args })
    }

    /// The translation of a key with arguments for its places.
    pub fn trf(&self, key: &str, args: Vec<Arg>) -> (res: Text)
        ensures
            res@ == trf(self.lang, key@, arg_models(args@)),
    {
        Text::single(Span::Translated { lang: self.lang, key: key.to_string(), args })
    }

    /// The translation of a key with one argument.
    pub fn trf1(&self, key: &str, arg: String) -> (res: Text)
        ensures
            res@ == trf1(self.lang, key@, arg@),
    {
        let mut args: Vec<Arg> = Vec::new();
        args.push(Arg::Plain(arg));
        proof {
            assert(arg_models(args@) =~= seq![ArgModel::Plain(arg@)]);
        }
        self.trf(key, args)
    }

    /// The translation of a key with two arguments.
    pub fn trf2(&self, key: &str, a: String, b: String) -> (res: Text)
        ensures
            res@ == trf2(self.lang, key@, a@, b@),
    {
        let mut args: Vec<Arg> = Vec::new();
        args.push(Arg::Plain(a));
        args.push(Arg::Plain(b));
        proof {
            assert(arg_models(args@) =~= seq![ArgModel::Plain(a@), ArgModel::Plain(b@)]);
        }
        self.trf(key, args)
    }
}

/// A copy of an optional text.
pub fn clone_opt(text: &Option<Text>) -> (copy: Option<Text>)
    ensures
        opt_spans(copy) == opt_spans(*text),
{
    match text {
        Some(t) => Some(t.clone()),
        None => None,
    }
}

/// A copy of a list of strings.
pub fn clone_strings(list: &Vec<String>) -> (copy: Vec<String>)
    ensures
        strings::texts(copy@) == strings::texts(list@),
{
    let mut out: Vec<String> = Vec::new();
    let mut i: usize = 0;
    while i < list.len()
        invariant
            i <= list@.len(),
            out@.len() == i,
            forall|k: int| 0 <= k < i ==> (#[trigger] out@[k])@ == list@[k]@,
        decreases list@.len() - i,
    {
        out.push(list[i].clone());
        i += 1;
    }
    proof {
        assert(strings::texts(out@) =~= strings::texts(list@));
    }
    out
}

/// A copy of an optional string.
pub fn clone_opt_string(s: &Option<String>) -> (copy: Option<String>)
    ensures
        strings::opt_text(copy) == strings::opt_text(*s),
{
    match s {
        Some(text) => Some(text.clone()),
        None => None,
    }
}

} // verus!
