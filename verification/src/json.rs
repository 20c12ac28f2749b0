//! JSON values: the library's own tree, how it is read, and how it is parsed
//! and printed with `serde_json`.
use serde_json::{Number, Value};
use vstd::prelude::*;

use crate::strings;

verus! {

/// A JSON value. A number that is no integer of 64 bits is kept as the number of
/// `serde_json` that it was read as.
#[derive(Debug, PartialEq)]
pub enum Json {
    Null,
    Bool(bool),
    Unsigned(u64),
    Negative(i64),
    Decimal(Number),
    Str(String),
    Array(Vec<Json>),
    Object(Vec<(String, Json)>),
}

/// What a JSON value holds.
#[verifier::ext_equal]
pub enum JsonModel {
    Null,
    Bool(bool),
    Unsigned(nat),
    Negative(int),
    Decimal(Number),
    Str(Seq<char>),
    Array(Seq<JsonModel>),
    Object(Seq<(Seq<char>, JsonModel)>),
}

impl Json {
    pub open spec fn model(self) -> JsonModel
        decreases self,
    {
        match self {
            Json::Null => JsonModel::Null,
            Json::Bool(b) => JsonModel::Bool(b),
            Json::Unsigned(n) => JsonModel::Unsigned(n as nat),
            Json::Negative(n) => JsonModel::Negative(n as int),
            Json::Decimal(n) => JsonModel::Decimal(n),
            Json::Str(s) => JsonModel::Str(s@),
            Json::Array(v) => JsonModel::Array(
                Seq::new(
                    v@.len(),
                    |i: int|
                        if 0 <= i < v@.len() {
                            v@[i].model()
                        } else {
                            JsonModel::Null
                        },
                ),
            ),
            Json::Object(v) => JsonModel::Object(
                Seq::new(
                    v@.len(),
                    |i: int|
                        if 0 <= i < v@.len() {
                            (v@[i].0@, v@[i].1.model())
                        } else {
                            (Seq::empty(), JsonModel::Null)
                        },
                ),
            ),
        }
    }
}

impl View for Json {
    type V = JsonModel;

    open spec fn view(&self) -> JsonModel {
        self.model()
    }
}

/// The values of a list.
pub open spec fn models(items: Seq<Json>) -> Seq<JsonModel> {
    Seq::new(items.len(), |i: int| items[i]@)
}

/// The members of an object.
pub open spec fn member_models(members: Seq<(String, Json)>) -> Seq<(Seq<char>, JsonModel)> {
    Seq::new(members.len(), |i: int| (members[i].0@, members[i].1@))
}

/// The model of an array is the array of the models of its items.
pub proof fn lemma_array(items: Vec<Json>)
    ensures
        Json::Array(items)@ == JsonModel::Array(models(items@)),
{
    let got = Json::Array(items)@->Array_0;
    assert forall|k: int| 0 <= k < items@.len() implies got[k] == models(items@)[k] by {}
    assert(got =~= models(items@));
}

/// The model of an object is the object of the models of its members.
pub proof fn lemma_object(members: Vec<(String, Json)>)
    ensures
        Json::Object(members)@ == JsonModel::Object(member_models(members@)),
{
    let got = Json::Object(members)@->Object_0;
    assert forall|k: int| 0 <= k < members@.len() implies got[k] == member_models(members@)[k] by {}
    assert(got =~= member_models(members@));
}

/// A copy of a value.
fn duplicate(value: &Json) -> (copy: Json)
    ensures
        copy@ == value@,
    decreases *value,
{
    match value {
        Json::Null => Json::Null,
        Json::Bool(b) => Json::Bool(*b),
        Json::Unsigned(n) => Json::Unsigned(*n),
        Json::Negative(n) => Json::Negative(*n),
        Json::Decimal(n) => Json::Decimal(n.clone()),
        Json::Str(s) => Json::Str(s.clone()),
        Json::Array(items) => {
            let mut out: Vec<Json> = Vec::new();
            let mut i: usize = 0;
            while i < items.len()
                invariant
                    i <= items@.len(),
                    out@.len() == i,
                    *value == Json::Array(*items),
                    forall|k: int| 0 <= k < i ==> (#[trigger] out@[k])@ == items@[k]@,
                decreases items@.len() - i,
            {
                proof {
                    assert(decreases_to!(*value => value->Array_0));
                    assert(decreases_to!(*items => items@));
                    assert(decreases_to!(items@ => items@[i as int]));
                }
                let item = duplicate(&items[i]);
                out.push(item);
                i += 1;
            }
            proof {
                lemma_array(out);
                lemma_array(*items);
                assert(models(out@) =~= models(items@));
            }
            Json::Array(out)
        },
        Json::Object(members) => {
            let mut out: Vec<(String, Json)> = Vec::new();
            let mut i: usize = 0;
            while i < members.len()
                invariant
                    i <= members@.len(),
                    out@.len() == i,
                    *value == Json::Object(*members),
                    forall|k: int|
                        0 <= k < i ==> (#[trigger] out@[k]).0@ == members@[k].0@ && out@[k].1@
                            == members@[k].1@,
                decreases members@.len() - i,
            {
                proof {
                    assert(decreases_to!(*value => value->Object_0));
                    assert(decreases_to!(*members => members@));
                    assert(decreases_to!(members@ => members@[i as int]));
                    assert(decreases_to!(members@[i as int] => members@[i as int].1));
                }
                let item = duplicate(&members[i].1);
                out.push((members[i].0.clone(), item));
                i += 1;
            }
            proof {
                lemma_object(out);
                lemma_object(*members);
                assert(member_models(out@) =~= member_models(members@));
            }
            Json::Object(out)
        },
    }
}

impl Clone for Json {
    fn clone(&self) -> (copy: Json)
        ensures
            copy@ == self@,
    {
        duplicate(self)
    }
}

// ---------------------------------------------------------------------------
// Reading
// ---------------------------------------------------------------------------

impl JsonModel {
    /// The value of the first member of an object under `key`.
    pub open spec fn member(self, key: Seq<char>) -> Option<JsonModel> {
        match self {
            JsonModel::Object(members) => member_of(members, key),
            _ => None,
        }
    }

    /// The value under `key`, `Null` where there is none.
    pub open spec fn at(self, key: Seq<char>) -> JsonModel {
        match self.member(key) {
            Some(value) => value,
            None => JsonModel::Null,
        }
    }

    pub open spec fn text(self) -> Option<Seq<char>> {
        match self {
            JsonModel::Str(s) => Some(s),
            _ => None,
        }
    }

    pub open spec fn unsigned(self) -> Option<nat> {
        match self {
            JsonModel::Unsigned(n) => Some(n),
            _ => None,
        }
    }

    /// The number, where it is an integer that fits in 64 bits with a sign.
    pub open spec fn signed(self) -> Option<int> {
        match self {
            JsonModel::Unsigned(n) => if n <= i64::MAX {
                Some(n as int)
            } else {
                None
            },
            JsonModel::Negative(n) => Some(n),
            _ => None,
        }
    }

    pub open spec fn truth(self) -> Option<bool> {
        match self {
            JsonModel::Bool(b) => Some(b),
            _ => None,
        }
    }

    pub open spec fn items(self) -> Option<Seq<JsonModel>> {
        match self {
            JsonModel::Array(items) => Some(items),
            _ => None,
        }
    }

    /// The text of the member `key`.
    pub open spec fn text_at(self, key: Seq<char>) -> Option<Seq<char>> {
        self.at(key).text()
    }

    /// The unsigned number of the member `key`.
    pub open spec fn unsigned_at(self, key: Seq<char>) -> Option<nat> {
        self.at(key).unsigned()
    }

    /// The truth value of the member `key`.
    pub open spec fn truth_at(self, key: Seq<char>) -> Option<bool> {
        self.at(key).truth()
    }

    /// The items of the member `key`.
    pub open spec fn items_at(self, key: Seq<char>) -> Option<Seq<JsonModel>> {
        self.at(key).items()
    }
}

/// The value of the first of `members` under `key`.
pub open spec fn member_of(members: Seq<(Seq<char>, JsonModel)>, key: Seq<char>) -> Option<JsonModel>
    decreases members.len(),
{
    if members.len() == 0 {
        None
    } else if members[0].0 == key {
        Some(members[0].1)
    } else {
        member_of(members.skip(1), key)
    }
}

impl Json {
    /// The value of the first member of an object under `key`.
    pub fn get(&self, key: &str) -> (res: Option<&Json>)
        ensures
            match res {
                Some(value) => self@.member(key@) == Some(value@),
                None => self@.member(key@) == None::<JsonModel>,
            },
    {
        match self {
            Json::Object(members) => {
                proof {
                    lemma_object(*members);
                    assert(member_models(members@).skip(0) =~= member_models(members@));
                }
                let mut i: usize = 0;
                while i < members.len()
                    invariant
                        i <= members@.len(),
                        member_of(member_models(members@).skip(i as int), key@) == self@.member(
                            key@,
                        ),
                    decreases members@.len() - i,
                {
                    if strings::text_eq(members[i].0.as_str(), key) {
                        return Some(&members[i].1);
                    }
                    proof {
                        assert(member_models(members@).skip(i as int).skip(1) =~= member_models(
                            members@,
                        ).skip(i + 1));
                    }
                    i += 1;
                }
                None
            },
            _ => None,
        }
    }

    /// A copy of the value under `key`; `Null` where there is none.
    pub fn index(&self, key: &str) -> (res: Json)
        ensures
            res@ == self@.at(key@),
    {
        match self.get(key) {
            Some(value) => value.clone(),
            None => Json::Null,
        }
    }

    pub fn as_str(&self) -> (res: Option<&str>)
        ensures
            match res {
                Some(s) => self@.text() == Some(s@),
                None => self@.text() == None::<Seq<char>>,
            },
    {
        match self {
            Json::Str(s) => Some(s.as_str()),
            _ => None,
        }
    }

    pub fn as_u64(&self) -> (res: Option<u64>)
        ensures
            match res {
                Some(n) => self@.unsigned() == Some(n as nat),
                None => self@.unsigned() == None::<nat>,
            },
    {
        match self {
            Json::Unsigned(n) => Some(*n),
            _ => None,
        }
    }

    pub fn as_i64(&self) -> (res: Option<i64>)
        ensures
            match res {
                Some(n) => self@.signed() == Some(n as int),
                None => self@.signed() == None::<int>,
            },
    {
        match self {
            Json::Unsigned(n) => if *n <= 0x7fff_ffff_ffff_ffff {
                Some(*n as i64)
            } else {
                None
            },
            Json::Negative(n) => Some(*n),
            _ => None,
        }
    }

    pub fn as_bool(&self) -> (res: Option<bool>)
        ensures
            res == self@.truth(),
    {
        match self {
            Json::Bool(b) => Some(*b),
            _ => None,
        }
    }

    pub fn as_array(&self) -> (res: Option<&Vec<Json>>)
        ensures
            match res {
                Some(items) => self@.items() == Some(models(items@)),
                None => self@.items() == None::<Seq<JsonModel>>,
            },
    {
        match self {
            Json::Array(items) => {
                proof {
                    lemma_array(*items);
                }
                Some(items)
            },
            _ => None,
        }
    }

    /// The text of the member `key`.
    pub fn str_at(&self, key: &str) -> (res: Option<&str>)
        ensures
            match res {
                Some(s) => self@.text_at(key@) == Some(s@),
                None => self@.text_at(key@) == None::<Seq<char>>,
            },
    {
        match self.get(key) {
            Some(value) => value.as_str(),
            None => None,
        }
    }

    /// A copy of the text of the member `key`.
    pub fn string_at(&self, key: &str) -> (res: Option<String>)
        ensures
            strings::opt_text(res) == self@.text_at(key@),
    {
        match self.str_at(key) {
            Some(s) => Some(s.to_string()),
            None => None,
        }
    }

    /// The unsigned number of the member `key`.
    pub fn u64_at(&self, key: &str) -> (res: Option<u64>)
        ensures
            match res {
                Some(n) => self@.unsigned_at(key@) == Some(n as nat),
                None => self@.unsigned_at(key@) == None::<nat>,
            },
    {
        match self.get(key) {
            Some(value) => value.as_u64(),
            None => None,
        }
    }

    /// The truth value of the member `key`.
    pub fn bool_at(&self, key: &str) -> (res: Option<bool>)
        ensures
            res == self@.truth_at(key@),
    {
        match self.get(key) {
            Some(value) => value.as_bool(),
            None => None,
        }
    }

    /// The items of the member `key`.
    pub fn array_at(&self, key: &str) -> (res: Option<&Vec<Json>>)
        ensures
            match res {
                Some(items) => self@.items_at(key@) == Some(models(items@)),
                None => self@.items_at(key@) == None::<Seq<JsonModel>>,
            },
    {
        match self.get(key) {
            Some(value) => value.as_array(),
            None => None,
        }
    }
}

/// The texts among a list of values, in order; other values are passed over.
pub open spec fn texts_among(items: Seq<JsonModel>) -> Seq<Seq<char>>
    decreases items.len(),
{
    if items.len() == 0 {
        Seq::empty()
    } else {
        match items.last().text() {
            Some(s) => texts_among(items.drop_last()).push(s),
            None => texts_among(items.drop_last()),
        }
    }
}

/// The texts among a list of values, in order; other values are passed over.
pub fn strings_among(items: &Vec<Json>) -> (res: Vec<String>)
    ensures
        strings::texts(res@) == texts_among(models(items@)),
{
    let mut out: Vec<String> = Vec::new();
    let mut i: usize = 0;
    proof {
        assert(strings::texts(out@) =~= texts_among(models(items@).take(0)));
    }
    while i < items.len()
        invariant
            i <= items@.len(),
            strings::texts(out@) == texts_among(models(items@).take(i as int)),
        decreases items@.len() - i,
    {
        let ghost before = out@;
        proof {
            let all = models(items@);
            assert(all.take(i + 1).drop_last() =~= all.take(i as int));
            assert(all.take(i + 1).last() == items@[i as int]@);
        }
        match items[i].as_str() {
            Some(s) => {
                out.push(s.to_string());
                proof {
                    assert(strings::texts(out@) =~= strings::texts(before).push(s@));
                }
            },
            None => {},
        }
        i += 1;
    }
    proof {
        assert(models(items@).take(i as int) =~= models(items@));
    }
    out
}

// ---------------------------------------------------------------------------
// Building
// ---------------------------------------------------------------------------

/// The text, or `null`.
pub open spec fn text_or_null(s: Option<Seq<char>>) -> JsonModel {
    match s {
        Some(text) => JsonModel::Str(text),
        None => JsonModel::Null,
    }
}

/// The array of texts.
pub open spec fn text_array(list: Seq<Seq<char>>) -> JsonModel {
    JsonModel::Array(Seq::new(list.len(), |i: int| JsonModel::Str(list[i])))
}

/// A text, or null.
pub fn opt_text_json(s: Option<String>) -> (res: Json)
    ensures
        res@ == text_or_null(strings::opt_text(s)),
{
    match s {
        Some(text) => Json::Str(text),
        None => Json::Null,
    }
}

/// The array of texts.
pub fn texts_json(list: &Vec<String>) -> (res: Json)
    ensures
        res@ == text_array(strings::texts(list@)),
{
    let mut items: Vec<Json> = Vec::new();
    let mut i: usize = 0;
    while i < list.len()
        invariant
            i <= list@.len(),
            items@.len() == i,
            forall|k: int| 0 <= k < i ==> (#[trigger] items@[k])@ == JsonModel::Str(list@[k]@),
        decreases list@.len() - i,
    {
        items.push(Json::Str(list[i].clone()));
        i += 1;
    }
    proof {
        lemma_array(items);
        assert(models(items@) =~= text_array(strings::texts(list@))->Array_0);
    }
    Json::Array(items)
}

/// An object with one text member.
pub open spec fn one_text(key: Seq<char>, value: Seq<char>) -> JsonModel {
    JsonModel::Object(seq![(key, JsonModel::Str(value))])
}

/// An object with one text member.
pub fn text_object(key: &str, value: &str) -> (res: Json)
    ensures
        res@ == one_text(key@, value@),
{
    let mut members: Vec<(String, Json)> = Vec::new();
    members.push((key.to_string(), Json::Str(value.to_string())));
    proof {
        lemma_object(members);
        assert(member_models(members@) =~= seq![(key@, JsonModel::Str(value@))]);
    }
    Json::Object(members)
}

// ---------------------------------------------------------------------------
// serde_json
// ---------------------------------------------------------------------------

/// `serde_json::Value`, a JSON value of the outside crate.
#[verifier::external_type_specification]
#[verifier::external_body]
pub struct ExValue(serde_json::Value);

/// `serde_json::Number`, a number of the outside crate.
#[verifier::external_type_specification]
#[verifier::external_body]
pub struct ExNumber(serde_json::Number);

/// `Clone` of a `serde_json::Number`: the copy is the same number.
pub assume_specification[ <serde_json::Number as Clone>::clone ](
    number: &serde_json::Number,
) -> (res: serde_json::Number)
    ensures
        res == *number,
;

/// `serde_json::Error`, why a text is no JSON.
#[verifier::external_type_specification]
#[verifier::external_body]
pub struct ExJsonError(serde_json::Error);

/// What a `serde_json::Value` holds.
pub uninterp spec fn contents(value: serde_json::Value) -> JsonModel;

/// What `serde_json::from_str` reads from a text, where the text is JSON.
pub uninterp spec fn parsed(text: Seq<char>) -> Option<JsonModel>;

/// The `serde_json::Value` that collecting these members and items gives: an
/// object of it holds each key once, in the order of the keys.
pub uninterp spec fn collected(value: JsonModel) -> JsonModel;

/// What `serde_json::to_string` writes for a value: JSON without white space.
pub uninterp spec fn compact(value: JsonModel) -> Seq<char>;

/// `serde_json::from_str` on a text: the value it reads, named `parsed`, or an
/// error where the text is no JSON. The result is a function of the text.
#[verifier::external_body]
pub(crate) fn read_value(text: &str) -> (res: Result<serde_json::Value, serde_json::Error>)
    ensures
        match res {
            Ok(value) => parsed(text@) == Some(contents(value)),
            Err(_) => parsed(text@) == None::<JsonModel>,
        },
{
    serde_json::from_str(text)
}

/// The contents of a `serde_json::Value`, variant for variant: `as_u64` and
/// `as_i64` tell its integers apart, and any other number is kept as it is.
#[verifier::external_body]
pub(crate) fn value_json(value: &serde_json::Value) -> (res: Json)
    ensures
        res@ == contents(*value),
{
    match value {
        Value::Null => Json::Null,
        Value::Bool(b) => Json::Bool(*b),
        Value::Number(n) => match (n.as_u64(), n.as_i64()) {
            (Some(u), _) => Json::Unsigned(u),
            (None, Some(i)) => Json::Negative(i),
            (None, None) => Json::Decimal(n.clone()),
        },
        Value::String(s) => Json::Str(s.clone()),
        Value::Array(items) => Json::Array(items.iter().map(value_json).collect()),
        Value::Object(map) => Json::Object(
            map.iter().map(|(k, v)| (k.clone(), value_json(v))).collect(),
        ),
    }
}

/// `serde_json::Value` collected from a tree, variant for variant; its
/// contents are named `collected`.
#[verifier::external_body]
pub(crate) fn json_value(value: &Json) -> (res: serde_json::Value)
    ensures
        contents(res) == collected(value@),
{
    match value {
        Json::Null => Value::Null,
        Json::Bool(b) => Value::Bool(*b),
        Json::Unsigned(n) => (*n).into(),
        Json::Negative(n) => (*n).into(),
        Json::Decimal(n) => Value::Number(n.clone()),
        Json::Str(s) => Value::String(s.clone()),
        Json::Array(items) => Value::Array(items.iter().map(json_value).collect()),
        Json::Object(members) => members.iter().map(|m| (m.0.clone(), json_value(&m.1))).collect(),
    }
}

/// What `Debug` writes for a `serde_json::Value` with these contents.
pub uninterp spec fn debugged(value: JsonModel) -> Seq<char>;

/// `Debug` of a `serde_json::Value`; the text is a function of the contents and
/// is named `debugged`.
#[verifier::external_body]
pub(crate) fn value_debug(value: &serde_json::Value) -> (res: String)
    ensures
        res@ == debugged(contents(*value)),
{
    format!("{:?}", value)
}

/// `Display` of a `serde_json::Value`, which is `serde_json::to_string`: JSON
/// without white space. The text is a function of the contents.
#[verifier::external_body]
pub(crate) fn value_text(value: &serde_json::Value) -> (res: String)
    ensures
        res@ == compact(contents(*value)),
{
    value.to_string()
}

/// The value that a text writes, where the text is JSON.
pub fn parse(text: &str) -> (res: Option<Json>)
    ensures
        match res {
            Some(value) => parsed(text@) == Some(value@),
            None => parsed(text@) == None::<JsonModel>,
        },
{
    match read_value(text) {
        Ok(value) => Some(value_json(&value)),
        Err(_) => None,
    }
}

/// The text of a value: JSON without white space, the members of an object in
/// the order of their keys.
pub fn to_text(value: &Json) -> (res: String)
    ensures
        res@ == compact(collected(value@)),
{
    let collected_value = json_value(value);
    value_text(&collected_value)
}

/// The value as it is shown for finding errors.
pub fn debug_text(value: &Json) -> (res: String)
    ensures
        res@ == debugged(collected(value@)),
{
    let collected_value = json_value(value);
    value_debug(&collected_value)
}

/// The value under a key is the one that stands first with it.
pub proof fn law_first_member_counts(members: Seq<(Seq<char>, JsonModel)>, key: Seq<char>, i: int)
    requires
        0 <= i < members.len(),
        members[i].0 == key,
        forall|j: int| 0 <= j < i ==> (#[trigger] members[j]).0 != key,
    ensures
        JsonModel::Object(members).member(key) == Some(members[i].1),
        JsonModel::Object(members).at(key) == members[i].1,
    decreases i,
{
    if i > 0 {
        assert(members[0].0 != key);
        let rest = members.skip(1);
        assert forall|j: int| 0 <= j < i - 1 implies (#[trigger] rest[j]).0 != key by {
            assert(members[j + 1].0 != key);
        }
        law_first_member_counts(rest, key, i - 1);
    }
}

/// A key that no member has gives no value, and null where one is asked for; so
/// does any value that is no object.
pub proof fn law_missing_member(value: JsonModel, key: Seq<char>)
    requires
        value matches JsonModel::Object(members) ==> forall|j: int|
            0 <= j < members.len() ==> (#[trigger] members[j]).0 != key,
    ensures
        value.member(key) is None,
        value.at(key) == JsonModel::Null,
        value.text_at(key) is None,
        value.unsigned_at(key) is None,
        value.truth_at(key) is None,
        value.items_at(key) is None,
    decreases value,
{
    if let JsonModel::Object(members) = value {
        lemma_missing(members, key);
    }
}

proof fn lemma_missing(members: Seq<(Seq<char>, JsonModel)>, key: Seq<char>)
    requires
        forall|j: int| 0 <= j < members.len() ==> (#[trigger] members[j]).0 != key,
    ensures
        member_of(members, key) is None,
    decreases members.len(),
{
    if members.len() > 0 {
        assert(members[0].0 != key);
        let rest = members.skip(1);
        assert forall|j: int| 0 <= j < rest.len() implies (#[trigger] rest[j]).0 != key by {
            assert(members[j + 1].0 != key);
        }
        lemma_missing(rest, key);
    }
}

/// A value is read as what it is, and as nothing else.
pub proof fn law_values_are_read_as_they_are(s: Seq<char>, n: nat, m: int, b: bool)
    requires
        m < 0,
    ensures
        JsonModel::Str(s).text() == Some(s),
        JsonModel::Str(s).unsigned() is None,
        JsonModel::Unsigned(n).unsigned() == Some(n),
        JsonModel::Unsigned(n).text() is None,
        n <= i64::MAX ==> JsonModel::Unsigned(n).signed() == Some(n as int),
        n > i64::MAX ==> JsonModel::Unsigned(n).signed() is None,
        JsonModel::Negative(m).signed() == Some(m),
        JsonModel::Negative(m).unsigned() is None,
        JsonModel::Bool(b).truth() == Some(b),
        JsonModel::Bool(b).text() is None,
        JsonModel::Null.text() is None,
        JsonModel::Null.truth() is None,
        JsonModel::Null.items() is None,
{
}

/// Of a list the texts are kept, in order, and nothing else.
pub proof fn law_texts_among(items: Seq<JsonModel>, item: JsonModel)
    ensures
        texts_among(Seq::empty()).len() == 0,
        item matches JsonModel::Str(s) ==> texts_among(items.push(item)) == texts_among(
            items,
        ).push(s),
        !(item is Str) ==> texts_among(items.push(item)) == texts_among(items),
{
    assert(items.push(item).drop_last() =~= items);
}

} // verus!
