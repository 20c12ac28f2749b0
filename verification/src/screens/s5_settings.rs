//! The settings.
use vstd::prelude::*;

use crate::model;
use crate::order;
use crate::screens::s3_main;
use crate::screens::s3_main::{HostItem, HostModel};
use crate::screens::s6_conflict::holds;
use crate::screens::s9_backup;
use crate::strings;
use crate::term::primitive;
use crate::term::primitive::{
    AppearanceModel,
    DEFAULT_TERMINAL_FONT_FAMILY,
    FontSize,
    TerminalAppearance,
    UNITS_PER_POINT,
};
use crate::text;
use crate::text::{I18n, Lang, SpanModel, Text};

verus! {

// ---------------------------------------------------------------------------
// Fonts
// ---------------------------------------------------------------------------

/// A face of an installed font.
#[derive(Debug, Clone, PartialEq)]
pub struct FontFace {
    pub monospaced: bool,
    pub post_script_name: String,
    /// The names of its family, the main one first.
    pub families: Vec<String>,
}

/// The face can be used in a terminal: it has a family, its characters are
/// equally wide, and neither of its names is that of a bitmap.
pub open spec fn usable(face: FontFace) -> bool {
    &&& face.monospaced
    &&& !strings::has_part(face.post_script_name@, "Bitmap"@)
    &&& face.families@.len() > 0
    &&& !strings::has_part(face.families@[0]@, "Bitmap"@)
}

/// The families of the usable faces, in order.
pub open spec fn usable_families(faces: Seq<FontFace>) -> Seq<Seq<char>>
    decreases faces.len(),
{
    if faces.len() == 0 {
        Seq::empty()
    } else {
        let before = usable_families(faces.drop_last());
        let face = faces.last();
        if usable(face) {
            before.push(face.families@[0]@)
        } else {
            before
        }
    }
}

/// The list with the names that equal the one kept before them, up to the case
/// of ASCII letters, taken out.
pub open spec fn without_repeats(names: Seq<Seq<char>>) -> Seq<Seq<char>>
    decreases names.len(),
{
    if names.len() == 0 {
        Seq::empty()
    } else {
        let before = without_repeats(names.drop_last());
        if before.len() > 0 && strings::same_ascii(names.last(), before.last()) {
            before
        } else {
            before.push(names.last())
        }
    }
}

/// The names with their lower case as the key.
pub open spec fn by_lowercase(names: Seq<Seq<char>>) -> Seq<order::Keyed> {
    Seq::new(
        names.len(),
        |i: int| order::Keyed { key: strings::lowercase(names[i]), value: names[i] },
    )
}

/// The families that a terminal can use, sorted whatever their case.
pub open spec fn terminal_fonts(faces: Seq<FontFace>) -> Seq<Seq<char>> {
    without_repeats(order::values_of(order::sorted(by_lowercase(usable_families(faces)))))
}

/// The families that a terminal can use, sorted whatever their case.
pub fn installed_terminal_fonts(faces: &Vec<FontFace>) -> (res: Vec<String>)
    ensures
        strings::texts(res@) == terminal_fonts(faces@),
{
    let mut families: Vec<String> = Vec::new();
    let mut keys: Vec<String> = Vec::new();
    let mut i: usize = 0;
    proof {
        assert(strings::texts(families@) =~= usable_families(faces@.take(0)));
    }
    while i < faces.len()
        invariant
            i <= faces@.len(),
            keys@.len() == families@.len(),
            strings::texts(families@) == usable_families(faces@.take(i as int)),
            forall|k: int|
                0 <= k < keys@.len() ==> (#[trigger] keys@[k])@ == strings::lowercase(families@[k]@),
        decreases faces@.len() - i,
    {
        proof {
            assert(faces@.take(i + 1).drop_last() =~= faces@.take(i as int));
        }
        let face = &faces[i];
        let ghost before = families@;
        if face.monospaced && !strings::contains_text(face.post_script_name.as_str(), "Bitmap")
            && face.families.len() > 0 && !strings::contains_text(
            face.families[0].as_str(),
            "Bitmap",
        ) {
            let name = face.families[0].clone();
            keys.push(strings::to_lowercase(name.as_str()));
            families.push(name);
            proof {
                assert(strings::texts(families@) =~= strings::texts(before).push(
                    face.families@[0]@,
                ));
            }
        }
        i += 1;
    }
    proof {
        assert(faces@.take(i as int) =~= faces@);
        assert(order::keyed(keys@, families@) =~= by_lowercase(strings::texts(families@)));
    }
    let sorted = order::sort_by_keys(&keys, &families);
    drop_repeats(&sorted)
}

fn drop_repeats(names: &Vec<String>) -> (res: Vec<String>)
    ensures
        strings::texts(res@) == without_repeats(strings::texts(names@)),
{
    let ghost all = strings::texts(names@);
    let mut out: Vec<String> = Vec::new();
    let mut i: usize = 0;
    proof {
        assert(strings::texts(out@) =~= without_repeats(all.take(0)));
    }
    while i < names.len()
        invariant
            i <= names@.len(),
            all == strings::texts(names@),
            strings::texts(out@) == without_repeats(all.take(i as int)),
        decreases names@.len() - i,
    {
        proof {
            assert(all.take(i + 1).drop_last() =~= all.take(i as int));
            assert(out@.len() == strings::texts(out@).len());
        }
        let ghost before = out@;
        let repeat: bool = out.len() > 0 && strings::eq_ignore_ascii_case(
            names[i].as_str(),
            out[out.len() - 1].as_str(),
        );
        if !repeat {
            out.push(names[i].clone());
            proof {
                assert(strings::texts(out@) =~= strings::texts(before).push(all[i as int]));
            }
        }
        i += 1;
    }
    proof {
        assert(all.take(i as int) =~= all);
    }
    out
}

/// Every family that a terminal can use is the main one of a usable face, and
/// no name of one speaks of a bitmap.
pub proof fn law_terminal_fonts_are_usable(faces: Seq<FontFace>, name: Seq<char>)
    requires
        terminal_fonts(faces).contains(name),
    ensures
        exists|i: int|
            0 <= i < faces.len() && usable(#[trigger] faces[i]) && faces[i].families@[0]@ == name,
        !strings::has_part(name, "Bitmap"@),
{
    let families = usable_families(faces);
    let keyed = by_lowercase(families);
    let sorted = order::sorted(keyed);
    let values = order::values_of(sorted);
    lemma_without_repeats_members(values, name);
    let k = choose|k: int| 0 <= k < values.len() && values[k] == name;
    order::law_sorted_is_a_sorted_rearrangement(keyed);
    broadcast use vstd::seq_lib::group_to_multiset_ensures;

    assert(sorted.contains(sorted[k]));
    assert(sorted.to_multiset().count(sorted[k]) > 0);
    assert(keyed.to_multiset().count(sorted[k]) > 0);
    assert(keyed.contains(sorted[k]));
    let j = choose|j: int| 0 <= j < keyed.len() && keyed[j] == sorted[k];
    assert(families[j] == name);
    lemma_usable_families_members(faces, j);
}

proof fn lemma_without_repeats_members(names: Seq<Seq<char>>, name: Seq<char>)
    requires
        without_repeats(names).contains(name),
    ensures
        names.contains(name),
    decreases names.len(),
{
    if names.len() > 0 {
        let init = names.drop_last();
        let before = without_repeats(init);
        let k = choose|k: int| 0 <= k < without_repeats(names).len() && without_repeats(names)[k] == name;
        if k < before.len() {
            assert(before[k] == name);
            lemma_without_repeats_members(init, name);
            let j = choose|j: int| 0 <= j < init.len() && init[j] == name;
            assert(names[j] == name);
        } else {
            assert(names[names.len() - 1] == name);
        }
    }
}

proof fn lemma_usable_families_members(faces: Seq<FontFace>, j: int)
    requires
        0 <= j < usable_families(faces).len(),
    ensures
        exists|i: int|
            0 <= i < faces.len() && usable(#[trigger] faces[i]) && faces[i].families@[0]@
                == usable_families(faces)[j],
    decreases faces.len(),
{
    if faces.len() > 0 {
        let init = faces.drop_last();
        if j < usable_families(init).len() {
            lemma_usable_families_members(init, j);
            let i = choose|i: int|
                0 <= i < init.len() && usable(#[trigger] init[i]) && init[i].families@[0]@
                    == usable_families(init)[j];
            assert(faces[i] == init[i]);
        } else {
            assert(usable(faces[faces.len() - 1]));
        }
    }
}

/// The families that a terminal can use stand in the order of their lower case,
/// and no two neighbours are the same up to the case of ASCII letters.
pub proof fn law_terminal_fonts_are_sorted(faces: Seq<FontFace>, i: int, j: int)
    requires
        0 <= i < j < terminal_fonts(faces).len(),
    ensures
        order::at_or_before(
            strings::lowercase(terminal_fonts(faces)[i]),
            strings::lowercase(terminal_fonts(faces)[j]),
        ),
        j == i + 1 ==> !strings::same_ascii(terminal_fonts(faces)[j], terminal_fonts(faces)[i]),
{
    let keyed = by_lowercase(usable_families(faces));
    let sorted = order::sorted(keyed);
    order::law_sorted_is_a_sorted_rearrangement(keyed);
    assert forall|k: int| 0 <= k < sorted.len() implies (#[trigger] sorted[k]).key
        == strings::lowercase(sorted[k].value) by {
        lemma_sorted_member(keyed, k);
    }
    assert forall|a: int, b: int|
        0 <= a <= b < order::values_of(sorted).len() implies order::at_or_before(
        strings::lowercase(#[trigger] order::values_of(sorted)[a]),
        strings::lowercase(#[trigger] order::values_of(sorted)[b]),
    ) by {
        assert(order::at_or_before(sorted[a].key, sorted[b].key));
    }
    lemma_without_repeats_sorted(order::values_of(sorted), i, j);
}

/// The main family of every usable face is among those that a terminal can use,
/// up to the case of ASCII letters.
pub proof fn law_usable_fonts_are_listed(faces: Seq<FontFace>, i: int)
    requires
        0 <= i < faces.len(),
        usable(faces[i]),
    ensures
        exists|k: int|
            0 <= k < terminal_fonts(faces).len() && strings::same_ascii(
                faces[i].families@[0]@,
                #[trigger] terminal_fonts(faces)[k],
            ),
{
    let families = usable_families(faces);
    let keyed = by_lowercase(families);
    let sorted = order::sorted(keyed);
    lemma_usable_is_listed(faces, i);
    let j = choose|j: int| 0 <= j < families.len() && families[j] == faces[i].families@[0]@;
    order::law_sorted_is_a_sorted_rearrangement(keyed);
    broadcast use vstd::seq_lib::group_to_multiset_ensures;

    assert(keyed.contains(keyed[j]));
    assert(keyed.to_multiset().count(keyed[j]) > 0);
    assert(sorted.contains(keyed[j]));
    let k = choose|k: int| 0 <= k < sorted.len() && sorted[k] == keyed[j];
    let values = order::values_of(sorted);
    assert(values[k] == families[j]);
    lemma_without_repeats_keeps(values, k);
    let m = choose|m: int|
        0 <= m < without_repeats(values).len() && strings::same_ascii(
            values[k],
            #[trigger] without_repeats(values)[m],
        );
    assert(strings::same_ascii(faces[i].families@[0]@, terminal_fonts(faces)[m]));
}

proof fn lemma_sorted_member(list: Seq<order::Keyed>, k: int)
    requires
        0 <= k < order::sorted(list).len(),
    ensures
        list.contains(order::sorted(list)[k]),
{
    broadcast use vstd::seq_lib::group_to_multiset_ensures;

    let sorted = order::sorted(list);
    order::law_sorted_is_a_sorted_rearrangement(list);
    assert(sorted.contains(sorted[k]));
    assert(list.to_multiset().count(sorted[k]) > 0);
}

proof fn lemma_without_repeats_sorted(names: Seq<Seq<char>>, i: int, j: int)
    requires
        forall|a: int, b: int|
            0 <= a <= b < names.len() ==> order::at_or_before(
                strings::lowercase(#[trigger] names[a]),
                strings::lowercase(#[trigger] names[b]),
            ),
        0 <= i < j < without_repeats(names).len(),
    ensures
        order::at_or_before(
            strings::lowercase(without_repeats(names)[i]),
            strings::lowercase(without_repeats(names)[j]),
        ),
        j == i + 1 ==> !strings::same_ascii(without_repeats(names)[j], without_repeats(names)[i]),
    decreases names.len(),
{
    if names.len() > 0 {
        let init = names.drop_last();
        let before = without_repeats(init);
        if j < before.len() {
            lemma_without_repeats_sorted(init, i, j);
        } else {
            assert(before.contains(before[i]));
            lemma_without_repeats_members(init, before[i]);
            let a = choose|a: int| 0 <= a < init.len() && init[a] == before[i];
            assert(names[a] == before[i]);
            assert(names[names.len() - 1] == names.last());
        }
    }
}

proof fn lemma_without_repeats_keeps(names: Seq<Seq<char>>, k: int)
    requires
        0 <= k < names.len(),
    ensures
        exists|m: int|
            0 <= m < without_repeats(names).len() && strings::same_ascii(
                names[k],
                #[trigger] without_repeats(names)[m],
            ),
    decreases names.len(),
{
    let init = names.drop_last();
    let before = without_repeats(init);
    let all = without_repeats(names);
    if k < init.len() {
        lemma_without_repeats_keeps(init, k);
        let m = choose|m: int|
            0 <= m < before.len() && strings::same_ascii(init[k], #[trigger] before[m]);
        assert(all[m] == before[m]);
        assert(names[k] == init[k]);
    } else if all.len() == before.len() {
        assert(strings::same_ascii(names[k], all[before.len() - 1]));
    } else {
        assert(strings::same_ascii(names[k], all[before.len() as int]));
    }
}

proof fn lemma_usable_is_listed(faces: Seq<FontFace>, i: int)
    requires
        0 <= i < faces.len(),
        usable(faces[i]),
    ensures
        usable_families(faces).contains(faces[i].families@[0]@),
    decreases faces.len(),
{
    let init = faces.drop_last();
    let before = usable_families(init);
    let all = usable_families(faces);
    if i < init.len() {
        lemma_usable_is_listed(init, i);
        let j = choose|j: int| 0 <= j < before.len() && before[j] == init[i].families@[0]@;
        assert(all[j] == before[j]);
    } else {
        assert(all[before.len() as int] == faces[i].families@[0]@);
    }
}

/// The font that is selected: the one that is configured, whatever its case,
/// or the default one, or Menlo, or the first, as far as they are installed.
pub open spec fn selected_font(configured: Seq<char>, installed: Seq<Seq<char>>) -> Seq<char> {
    let same = model::first_match(
        installed,
        |n: Seq<char>| strings::same_ascii(n, configured),
    );
    if same is Some {
        same->0
    } else if installed.contains(DEFAULT_TERMINAL_FONT_FAMILY@) {
        DEFAULT_TERMINAL_FONT_FAMILY@
    } else if installed.contains("Menlo"@) {
        "Menlo"@
    } else if installed.len() > 0 {
        installed[0]
    } else {
        DEFAULT_TERMINAL_FONT_FAMILY@
    }
}

/// The font that is selected of those that are installed.
pub fn selected_terminal_font(configured: &str, installed: &Vec<String>) -> (res: String)
    ensures
        res@ == selected_font(configured@, strings::texts(installed@)),
{
    let ghost all = strings::texts(installed@);
    let ghost p = |n: Seq<char>| strings::same_ascii(n, configured@);
    let mut i: usize = 0;
    while i < installed.len()
        invariant
            i <= installed@.len(),
            all == strings::texts(installed@),
            p == (|n: Seq<char>| strings::same_ascii(n, configured@)),
            forall|k: int| 0 <= k < i ==> !p(#[trigger] all[k]),
        decreases installed@.len() - i,
    {
        if strings::eq_ignore_ascii_case(installed[i].as_str(), configured) {
            proof {
                assert(p(all[i as int]));
                model::lemma_first_index_some(all, p, i as int);
            }
            return installed[i].clone();
        }
        proof {
            assert(!p(all[i as int]));
        }
        i += 1;
    }
    proof {
        model::lemma_first_index_none(all, p);
    }
    if holds(installed, DEFAULT_TERMINAL_FONT_FAMILY) {
        DEFAULT_TERMINAL_FONT_FAMILY.to_string()
    } else if holds(installed, "Menlo") {
        "Menlo".to_string()
    } else if installed.len() > 0 {
        installed[0].clone()
    } else {
        DEFAULT_TERMINAL_FONT_FAMILY.to_string()
    }
}

/// The selected font is one of the installed ones, where there are any.
pub proof fn law_selected_font_is_installed(configured: Seq<char>, installed: Seq<Seq<char>>)
    ensures
        installed.len() > 0 ==> installed.contains(selected_font(configured, installed)),
{
    let p = |n: Seq<char>| strings::same_ascii(n, configured);
    model::lemma_first_index_any(installed, p);
    if installed.len() > 0 {
        assert(installed.contains(installed[0]));
        if let Some(i) = model::first_index(installed, p) {
            assert(installed.contains(installed[i]));
        }
    }
}

/// The font sizes to choose from.
pub open spec fn font_sizes() -> Seq<u16> {
    seq![10u16, 11, 12, 13, 14, 15, 16, 18, 20, 22, 24, 28, 32]
}

/// How far a choice is from a size.
pub open spec fn font_distance(choice: u16, units: i64) -> int {
    let d = choice * UNITS_PER_POINT - units;
    if d < 0 {
        -d
    } else {
        d
    }
}

/// The choice at a position is the first of those that are nearest to a size.
pub open spec fn is_nearest(i: int, units: i64) -> bool {
    &&& 0 <= i < font_sizes().len()
    &&& forall|j: int|
        0 <= j < font_sizes().len() ==> font_distance(font_sizes()[i], units) <= font_distance(
            #[trigger] font_sizes()[j],
            units,
        )
    &&& forall|j: int|
        0 <= j < i ==> font_distance(font_sizes()[i], units) < font_distance(
            #[trigger] font_sizes()[j],
            units,
        )
}

/// The font sizes to choose from.
pub fn terminal_font_sizes() -> (res: Vec<u16>)
    ensures
        res@ == font_sizes(),
{
    let mut out: Vec<u16> = Vec::new();
    out.push(10);
    out.push(11);
    out.push(12);
    out.push(13);
    out.push(14);
    out.push(15);
    out.push(16);
    out.push(18);
    out.push(20);
    out.push(22);
    out.push(24);
    out.push(28);
    out.push(32);
    proof {
        assert(out@ =~= font_sizes());
    }
    out
}

/// The choice that is nearest to a size, the smaller of two; the smallest where
/// the size is no finite number.
pub fn selected_terminal_font_size(configured: FontSize) -> (res: u16)
    ensures
        match configured {
            FontSize::Units(units) => exists|i: int| #[trigger]
                is_nearest(i, units) && res == font_sizes()[i],
            FontSize::NotFinite => res == 10,
        },
{
    let units: i64 = match configured {
        FontSize::Units(units) => units,
        FontSize::NotFinite => return 10,
    };
    let sizes = terminal_font_sizes();
    let mut best: usize = 0;
    let mut i: usize = 1;
    while i < sizes.len()
        invariant
            sizes@ == font_sizes(),
            1 <= i <= sizes@.len(),
            best < i,
            forall|j: int|
                0 <= j < i ==> font_distance(font_sizes()[best as int], units) <= font_distance(
                    #[trigger] font_sizes()[j],
                    units,
                ),
            forall|j: int|
                0 <= j < best ==> font_distance(font_sizes()[best as int], units) < font_distance(
                    #[trigger] font_sizes()[j],
                    units,
                ),
        decreases sizes@.len() - i,
    {
        let d: i128 = distance(sizes[i], units);
        let b: i128 = distance(sizes[best], units);
        if d < b {
            best = i;
        }
        i += 1;
    }
    proof {
        assert(is_nearest(best as int, units));
    }
    sizes[best]
}

fn distance(choice: u16, units: i64) -> (res: i128)
    ensures
        res == font_distance(choice, units),
{
    let d: i128 = choice as i128 * 1_048_576 - units as i128;
    if d < 0 {
        -d
    } else {
        d
    }
}

// ---------------------------------------------------------------------------
// Choices
// ---------------------------------------------------------------------------

/// Where the vault is synced to.
#[derive(Debug, Clone, Copy, PartialEq, Eq, Structural)]
pub enum SyncMode {
    Off,
    Local,
}

/// The mode that a path stands for.
pub open spec fn mode_of(path: Seq<char>) -> SyncMode {
    if path.len() == 0 {
        SyncMode::Off
    } else {
        SyncMode::Local
    }
}

impl SyncMode {
    pub fn from_path(path: &str) -> (res: Self)
        ensures
            res == mode_of(path@),
    {
        if path.is_empty() {
            SyncMode::Off
        } else {
            SyncMode::Local
        }
    }
}

/// A mode with its name.
#[derive(Debug, PartialEq)]
pub struct SyncModeItem {
    pub mode: SyncMode,
    pub label: Text,
}

impl SyncModeItem {
    pub fn none(i18n: &I18n) -> (res: Self)
        ensures
            res.mode == SyncMode::Off,
            res.label@ == text::tr(i18n.lang, "settings_sync_mode_none"@),
    {
        SyncModeItem { mode: SyncMode::Off, label: i18n.tr("settings_sync_mode_none") }
    }

    pub fn local(i18n: &I18n) -> (res: Self)
        ensures
            res.mode == SyncMode::Local,
            res.label@ == text::tr(i18n.lang, "settings_sync_mode_local"@),
    {
        SyncModeItem { mode: SyncMode::Local, label: i18n.tr("settings_sync_mode_local") }
    }
}

/// A place to sync to that is one press away.
#[derive(Debug, Clone, Copy, PartialEq, Eq, Structural)]
pub enum QuickLocation {
    ICloud,
    Home,
}

/// A page of the settings.
#[derive(Debug, Clone, Copy, PartialEq, Eq, Structural)]
pub enum SettingsSection {
    Application,
    Connections,
    Sync,
    Terminal,
    Backup,
}

impl SettingsSection {
    pub open spec fn key(self) -> Seq<char> {
        match self {
            SettingsSection::Application => "settings_nav_application"@,
            SettingsSection::Connections => "settings_nav_connections"@,
            SettingsSection::Sync => "settings_nav_sync"@,
            SettingsSection::Terminal => "settings_nav_terminal"@,
            SettingsSection::Backup => "settings_nav_backup"@,
        }
    }

    /// The pages in the order in which they are listed.
    pub fn all() -> (res: Vec<SettingsSection>)
        ensures
            res@ == seq![
                SettingsSection::Application,
                SettingsSection::Connections,
                SettingsSection::Sync,
                SettingsSection::Terminal,
                SettingsSection::Backup,
            ],
    {
        let mut out: Vec<SettingsSection> = Vec::new();
        out.push(SettingsSection::Application);
        out.push(SettingsSection::Connections);
        out.push(SettingsSection::Sync);
        out.push(SettingsSection::Terminal);
        out.push(SettingsSection::Backup);
        out
    }

    pub fn label(&self, i18n: &I18n) -> (res: Text)
        ensures
            res@ == text::tr(i18n.lang, self.key()),
    {
        match self {
            SettingsSection::Application => i18n.tr("settings_nav_application"),
            SettingsSection::Connections => i18n.tr("settings_nav_connections"),
            SettingsSection::Sync => i18n.tr("settings_nav_sync"),
            SettingsSection::Terminal => i18n.tr("settings_nav_terminal"),
            SettingsSection::Backup => i18n.tr("settings_nav_backup"),
        }
    }
}

/// A choice of language.
#[derive(Debug, Clone, Copy, PartialEq, Eq, Structural)]
pub enum LangChoice {
    System,
    ZhCn,
    En,
}

impl LangChoice {
    pub open spec fn code(self) -> Seq<char> {
        match self {
            LangChoice::System => "system"@,
            LangChoice::ZhCn => "zh-CN"@,
            LangChoice::En => "en"@,
        }
    }

    /// The choice that a code stands for.
    pub open spec fn of_code(code: Seq<char>) -> LangChoice {
        if code == "zh-CN"@ {
            LangChoice::ZhCn
        } else if code == "en"@ {
            LangChoice::En
        } else {
            LangChoice::System
        }
    }

    /// The code of the choice.
    pub fn as_str(&self) -> (res: &'static str)
        ensures
            res@ == self.code(),
    {
        match self {
            LangChoice::System => "system",
            LangChoice::ZhCn => "zh-CN",
            LangChoice::En => "en",
        }
    }

    /// The choice that a code stands for; the system's where it stands for none.
    pub fn from_code(code: &str) -> (res: LangChoice)
        ensures
            res == LangChoice::of_code(code@),
    {
        if strings::text_eq(code, "zh-CN") {
            LangChoice::ZhCn
        } else if strings::text_eq(code, "en") {
            LangChoice::En
        } else {
            LangChoice::System
        }
    }

    pub open spec fn name_of(self) -> Seq<char> {
        match self {
            LangChoice::System => "System"@,
            LangChoice::ZhCn => "中文"@,
            LangChoice::En => "English"@,
        }
    }

    /// The name of the choice in its own language.
    pub fn name(&self) -> (res: String)
        ensures
            res@ == self.name_of(),
    {
        match self {
            LangChoice::System => "System".to_string(),
            LangChoice::ZhCn => "中文".to_string(),
            LangChoice::En => "English".to_string(),
        }
    }
}

/// Reading the code of a choice gives the choice.
pub proof fn law_lang_code_round_trip(choice: LangChoice)
    ensures
        LangChoice::of_code(choice.code()) == choice,
{
    reveal_strlit("system");
    reveal_strlit("zh-CN");
    reveal_strlit("en");
    assert("system"@.len() == 6 && "zh-CN"@.len() == 5 && "en"@.len() == 2);
}

// ---------------------------------------------------------------------------
// State
// ---------------------------------------------------------------------------

/// The settings that the vault keeps.
#[derive(Debug, PartialEq)]
pub struct VaultSettings {
    pub s3_endpoint: Option<String>,
    pub s3_bucket: Option<String>,
    pub s3_access_key: Option<String>,
    pub s3_secret_key: Option<String>,
    pub sync_local_path: Option<String>,
    pub scrollback_lines: usize,
    pub terminal_font_family: String,
    pub terminal_font_size: FontSize,
    pub terminal_cursor_blink: bool,
}

#[verifier::ext_equal]
pub struct VaultModel {
    pub s3_endpoint: Option<Seq<char>>,
    pub s3_bucket: Option<Seq<char>>,
    pub s3_access_key: Option<Seq<char>>,
    pub s3_secret_key: Option<Seq<char>>,
    pub sync_local_path: Option<Seq<char>>,
    pub scrollback_lines: usize,
    pub terminal_font_family: Seq<char>,
    pub terminal_font_size: FontSize,
    pub terminal_cursor_blink: bool,
}

impl View for VaultSettings {
    type V = VaultModel;

    open spec fn view(&self) -> VaultModel {
        VaultModel {
            s3_endpoint: strings::opt_text(self.s3_endpoint),
            s3_bucket: strings::opt_text(self.s3_bucket),
            s3_access_key: strings::opt_text(self.s3_access_key),
            s3_secret_key: strings::opt_text(self.s3_secret_key),
            sync_local_path: strings::opt_text(self.sync_local_path),
            scrollback_lines: self.scrollback_lines,
            terminal_font_family: self.terminal_font_family@,
            terminal_font_size: self.terminal_font_size,
            terminal_cursor_blink: self.terminal_cursor_blink,
        }
    }
}

impl Clone for VaultSettings {
    fn clone(&self) -> (copy: Self)
        ensures
            copy@ == self@,
    {
        VaultSettings {
            s3_endpoint: text::clone_opt_string(&self.s3_endpoint),
            s3_bucket: text::clone_opt_string(&self.s3_bucket),
            s3_access_key: text::clone_opt_string(&self.s3_access_key),
            s3_secret_key: text::clone_opt_string(&self.s3_secret_key),
            sync_local_path: text::clone_opt_string(&self.sync_local_path),
            scrollback_lines: self.scrollback_lines,
            terminal_font_family: self.terminal_font_family.clone(),
            terminal_font_size: self.terminal_font_size,
            terminal_cursor_blink: self.terminal_cursor_blink,
        }
    }
}

#[derive(Debug)]
pub struct State {
    pub active_section: SettingsSection,
    pub language: LangChoice,
    pub sync_mode: SyncMode,
    pub sync_local_path: String,
    pub scrollback_lines: String,
    pub terminal_font_families: Vec<String>,
    pub terminal_font_family: String,
    pub terminal_font_size: u16,
    pub terminal_cursor_blink: bool,
    pub backup: s9_backup::State,
    /// All that the vault keeps; saving keeps what no page shows.
    pub vault_settings: VaultSettings,
    pub saving: bool,
    pub saved: bool,
    pub error: Option<Text>,
}

#[verifier::ext_equal]
pub struct StateModel {
    pub active_section: SettingsSection,
    pub language: LangChoice,
    pub sync_mode: SyncMode,
    pub sync_local_path: Seq<char>,
    pub scrollback_lines: Seq<char>,
    pub terminal_font_families: Seq<Seq<char>>,
    pub terminal_font_family: Seq<char>,
    pub terminal_font_size: u16,
    pub terminal_cursor_blink: bool,
    pub backup: s9_backup::StateModel,
    pub vault_settings: VaultModel,
    pub saving: bool,
    pub saved: bool,
    pub error: Option<Seq<SpanModel>>,
}

impl View for State {
    type V = StateModel;

    open spec fn view(&self) -> StateModel {
        StateModel {
            active_section: self.active_section,
            language: self.language,
            sync_mode: self.sync_mode,
            sync_local_path: self.sync_local_path@,
            scrollback_lines: self.scrollback_lines@,
            terminal_font_families: strings::texts(self.terminal_font_families@),
            terminal_font_family: self.terminal_font_family@,
            terminal_font_size: self.terminal_font_size,
            terminal_cursor_blink: self.terminal_cursor_blink,
            backup: self.backup@,
            vault_settings: self.vault_settings@,
            saving: self.saving,
            saved: self.saved,
            error: text::opt_spans(self.error),
        }
    }
}

/// What the settings are made of: what the vault keeps, the code of the
/// language that was chosen, and the installed fonts.
#[derive(Debug, Clone)]
pub struct Loaded {
    pub settings: VaultSettings,
    pub language: Option<String>,
    pub faces: Vec<FontFace>,
}

/// The choice of language that was kept.
pub open spec fn kept_language(code: Option<Seq<char>>) -> LangChoice {
    match code {
        Some(code) => LangChoice::of_code(code),
        None => LangChoice::System,
    }
}

/// The nearest choice to a size.
pub open spec fn nearest_size(size: FontSize) -> u16 {
    match size {
        FontSize::Units(units) => font_sizes()[choose|i: int| is_nearest(i, units)],
        FontSize::NotFinite => 10,
    }
}

proof fn lemma_nearest_unique(i: int, j: int, units: i64)
    requires
        is_nearest(i, units),
        is_nearest(j, units),
    ensures
        i == j,
{
    if i < j {
        assert(font_distance(font_sizes()[j], units) < font_distance(font_sizes()[i], units));
        assert(font_distance(font_sizes()[i], units) <= font_distance(font_sizes()[j], units));
    } else if j < i {
        assert(font_distance(font_sizes()[i], units) < font_distance(font_sizes()[j], units));
        assert(font_distance(font_sizes()[j], units) <= font_distance(font_sizes()[i], units));
    }
}

impl StateModel {
    /// The settings as they were loaded.
    pub open spec fn of(loaded: Loaded) -> StateModel {
        let vault = loaded.settings@;
        let path = match vault.sync_local_path {
            Some(path) => path,
            None => Seq::empty(),
        };
        let fonts = terminal_fonts(loaded.faces@);
        StateModel {
            active_section: SettingsSection::Application,
            language: kept_language(strings::opt_text(loaded.language)),
            sync_mode: mode_of(path),
            sync_local_path: path,
            scrollback_lines: strings::decimal(vault.scrollback_lines as nat),
            terminal_font_families: fonts,
            terminal_font_family: selected_font(vault.terminal_font_family, fonts),
            terminal_font_size: nearest_size(vault.terminal_font_size),
            terminal_cursor_blink: vault.terminal_cursor_blink,
            backup: s9_backup::StateModel::blank(),
            vault_settings: vault,
            saving: false,
            saved: false,
            error: None,
        }
    }

    /// The appearance of terminals that the settings give.
    pub open spec fn appearance(self) -> AppearanceModel {
        AppearanceModel {
            font_family: self.terminal_font_family,
            font_size: primitive::points_size(self.terminal_font_size as int),
            cursor_blink: self.terminal_cursor_blink,
        }
    }

    /// The number of lines of history that is saved.
    pub open spec fn saved_scrollback(self) -> nat {
        match strings::number_up_to(self.scrollback_lines, usize::MAX as nat) {
            Some(n) => n,
            None => 3000,
        }
    }

    /// What the vault keeps after a save: the rest of its settings stay.
    pub open spec fn to_save(self) -> VaultModel {
        VaultModel {
            sync_local_path: if self.sync_local_path.len() == 0 {
                None
            } else {
                Some(self.sync_local_path)
            },
            scrollback_lines: self.saved_scrollback() as usize,
            terminal_font_family: self.terminal_font_family,
            terminal_font_size: primitive::points_size(self.terminal_font_size as int),
            terminal_cursor_blink: self.terminal_cursor_blink,
            ..self.vault_settings
        }
    }
}

impl State {
    /// The settings as they were loaded.
    pub fn from_json(loaded: Loaded) -> (res: Self)
        ensures
            res@ == StateModel::of(loaded),
    {
        let vault = loaded.settings;
        let path = match &vault.sync_local_path {
            Some(path) => path.clone(),
            None => {
                let out = String::new();
                proof {
                    assert(out@ =~= Seq::<char>::empty());
                }
                out
            },
        };
        let language = match &loaded.language {
            Some(code) => LangChoice::from_code(code.as_str()),
            None => LangChoice::System,
        };
        let fonts = installed_terminal_fonts(&loaded.faces);
        let family = selected_terminal_font(vault.terminal_font_family.as_str(), &fonts);
        let size = selected_terminal_font_size(vault.terminal_font_size);
        proof {
            if let FontSize::Units(units) = vault.terminal_font_size {
                let i = choose|i: int| #[trigger] is_nearest(i, units) && size == font_sizes()[i];
                let j = choose|j: int| is_nearest(j, units);
                lemma_nearest_unique(i, j, units);
            }
        }
        State {
            active_section: SettingsSection::Application,
            language,
            sync_mode: SyncMode::from_path(path.as_str()),
            sync_local_path: path,
            scrollback_lines: strings::decimal_text(vault.scrollback_lines as u64),
            terminal_font_families: fonts,
            terminal_font_family: family,
            terminal_font_size: size,
            terminal_cursor_blink: vault.terminal_cursor_blink,
            backup: s9_backup::State::new(),
            vault_settings: vault,
            saving: false,
            saved: false,
            error: None,
        }
    }

    /// The appearance of terminals that the settings give.
    pub fn terminal_appearance(&self) -> (res: TerminalAppearance)
        ensures
            res@ == self@.appearance(),
    {
        TerminalAppearance {
            font_family: self.terminal_font_family.clone(),
            font_size: FontSize::points(self.terminal_font_size),
            cursor_blink: self.terminal_cursor_blink,
        }
    }

    /// What the vault keeps after a save.
    pub fn settings_to_save(&self) -> (res: VaultSettings)
        ensures
            res@ == self@.to_save(),
    {
        let scrollback: usize = match strings::parse_up_to(
            self.scrollback_lines.as_str(),
            usize::MAX as u64,
        ) {
            Some(n) => n as usize,
            None => 3000,
        };
        let mut settings = self.vault_settings.clone();
        settings.sync_local_path = if self.sync_local_path.as_str().is_empty() {
            None
        } else {
            Some(self.sync_local_path.clone())
        };
        settings.scrollback_lines = scrollback;
        settings.terminal_font_family = self.terminal_font_family.clone();
        settings.terminal_font_size = FontSize::points(self.terminal_font_size);
        settings.terminal_cursor_blink = self.terminal_cursor_blink;
        settings
    }
}

/// Saving settings changes nothing that no page shows.
pub proof fn law_saving_keeps_what_is_not_shown(s: StateModel)
    ensures
        s.to_save().s3_endpoint == s.vault_settings.s3_endpoint,
        s.to_save().s3_bucket == s.vault_settings.s3_bucket,
        s.to_save().s3_access_key == s.vault_settings.s3_access_key,
        s.to_save().s3_secret_key == s.vault_settings.s3_secret_key,
{
}

/// Settings that are saved as they were loaded keep the number of lines of
/// history and the blinking of the cursor, and the path unless it is empty.
pub proof fn law_loaded_settings_are_saved_back(loaded: Loaded)
    ensures
        StateModel::of(loaded).to_save().scrollback_lines == loaded.settings.scrollback_lines,
        StateModel::of(loaded).to_save().terminal_cursor_blink
            == loaded.settings.terminal_cursor_blink,
        loaded.settings@.sync_local_path != Some(Seq::<char>::empty()) ==> StateModel::of(
            loaded,
        ).to_save().sync_local_path == loaded.settings@.sync_local_path,
{
    strings::lemma_decimal_round_trip(loaded.settings.scrollback_lines as nat);
    if let Some(path) = loaded.settings@.sync_local_path {
        if path.len() == 0 {
            assert(path =~= Seq::<char>::empty());
        }
    }
}

// ---------------------------------------------------------------------------
// Connections
// ---------------------------------------------------------------------------

/// A host in the list of connections.
#[derive(Debug)]
pub struct HostRow {
    pub id: String,
    pub name: String,
    /// The user, the host and the port.
    pub address: String,
}

#[verifier::ext_equal]
pub struct RowModel {
    pub id: Seq<char>,
    pub name: Seq<char>,
    pub address: Seq<char>,
}

impl View for HostRow {
    type V = RowModel;

    open spec fn view(&self) -> RowModel {
        RowModel { id: self.id@, name: self.name@, address: self.address@ }
    }
}

/// The rows of a list.
pub open spec fn row_models(rows: Seq<HostRow>) -> Seq<RowModel> {
    Seq::new(rows.len(), |i: int| rows[i]@)
}

/// The row of a host.
pub open spec fn row_of(h: HostModel) -> RowModel {
    RowModel {
        id: h.id,
        name: h.name,
        address: h.user + "@"@ + h.host + ":"@ + strings::decimal(h.port as nat),
    }
}

/// The group of a host, where it has one.
pub open spec fn group_of(h: HostModel) -> Option<Seq<char>> {
    match h.group {
        Some(group) => if group.len() == 0 {
            None
        } else {
            Some(group)
        },
        None => None,
    }
}

/// The rows of the hosts of a group, in order.
pub open spec fn rows_in(hosts: Seq<HostModel>, group: Option<Seq<char>>) -> Seq<RowModel>
    decreases hosts.len(),
{
    if hosts.len() == 0 {
        Seq::empty()
    } else {
        let before = rows_in(hosts.drop_last(), group);
        if group_of(hosts.last()) == group {
            before.push(row_of(hosts.last()))
        } else {
            before
        }
    }
}

/// The names of the groups, each once, in the order in which they come up.
pub open spec fn group_names(hosts: Seq<HostModel>) -> Seq<Seq<char>>
    decreases hosts.len(),
{
    if hosts.len() == 0 {
        Seq::empty()
    } else {
        let before = group_names(hosts.drop_last());
        match group_of(hosts.last()) {
            Some(group) => if before.contains(group) {
                before
            } else {
                before.push(group)
            },
            None => before,
        }
    }
}

/// The names with themselves as the key.
pub open spec fn by_itself(names: Seq<Seq<char>>) -> Seq<order::Keyed> {
    Seq::new(names.len(), |i: int| order::Keyed { key: names[i], value: names[i] })
}

/// The names of the groups, sorted.
pub open spec fn sorted_groups(hosts: Seq<HostModel>) -> Seq<Seq<char>> {
    order::values_of(order::sorted(by_itself(group_names(hosts))))
}

/// The hosts of a group.
#[derive(Debug)]
pub struct HostGroup {
    pub name: String,
    pub rows: Vec<HostRow>,
}

/// The list of connections: the hosts without a group, then the groups.
#[derive(Debug)]
pub struct Connections {
    pub ungrouped: Vec<HostRow>,
    pub groups: Vec<HostGroup>,
}

fn group_name(host: &HostItem) -> (res: Option<&str>)
    ensures
        match res {
            Some(name) => group_of(host@) == Some(name@),
            None => group_of(host@) == None::<Seq<char>>,
        },
{
    match &host.group {
        Some(group) => if group.as_str().is_empty() {
            None
        } else {
            Some(group.as_str())
        },
        None => None,
    }
}

fn row_for(host: &HostItem) -> (res: HostRow)
    ensures
        res@ == row_of(host@),
{
    let mut address = strings::concat3(host.user.as_str(), "@", host.host.as_str());
    address.append(":");
    let port = strings::decimal_text(host.port as u64);
    address.append(port.as_str());
    HostRow { id: host.id.clone(), name: host.name.clone(), address }
}

/// The rows of the hosts of a group, or of those without one.
fn rows_for(hosts: &Vec<HostItem>, group: Option<&str>) -> (res: Vec<HostRow>)
    ensures
        row_models(res@) == rows_in(
            s3_main::host_models(hosts@),
            match group {
                Some(name) => Some(name@),
                None => None,
            },
        ),
{
    let ghost all = s3_main::host_models(hosts@);
    let ghost wanted = match group {
        Some(name) => Some(name@),
        None => None::<Seq<char>>,
    };
    let mut out: Vec<HostRow> = Vec::new();
    let mut i: usize = 0;
    proof {
        assert(row_models(out@) =~= rows_in(all.take(0), wanted));
    }
    while i < hosts.len()
        invariant
            i <= hosts@.len(),
            all == s3_main::host_models(hosts@),
            wanted == (match group {
                Some(name) => Some(name@),
                None => None::<Seq<char>>,
            }),
            row_models(out@) == rows_in(all.take(i as int), wanted),
        decreases hosts@.len() - i,
    {
        proof {
            assert(all.take(i + 1).drop_last() =~= all.take(i as int));
        }
        let ghost before = out@;
        let matches_group: bool = match (group_name(&hosts[i]), group) {
            (Some(a), Some(b)) => strings::text_eq(a, b),
            (None, None) => true,
            _ => false,
        };
        if matches_group {
            let row = row_for(&hosts[i]);
            out.push(row);
            proof {
                assert(row_models(out@) =~= row_models(before).push(row@));
            }
        }
        i += 1;
    }
    proof {
        assert(all.take(i as int) =~= all);
    }
    out
}

/// The list of connections.
pub fn view_connections(hosts: &Vec<HostItem>) -> (res: Connections)
    ensures
        row_models(res.ungrouped@) == rows_in(s3_main::host_models(hosts@), None),
        res.groups@.len() == sorted_groups(s3_main::host_models(hosts@)).len(),
        forall|i: int|
            0 <= i < res.groups@.len() ==> (#[trigger] res.groups@[i]).name@ == sorted_groups(
                s3_main::host_models(hosts@),
            )[i] && row_models(res.groups@[i].rows@) == rows_in(
                s3_main::host_models(hosts@),
                Some(res.groups@[i].name@),
            ),
{
    let ghost all = s3_main::host_models(hosts@);
    let mut names: Vec<String> = Vec::new();
    let mut i: usize = 0;
    proof {
        assert(strings::texts(names@) =~= group_names(all.take(0)));
    }
    while i < hosts.len()
        invariant
            i <= hosts@.len(),
            all == s3_main::host_models(hosts@),
            strings::texts(names@) == group_names(all.take(i as int)),
        decreases hosts@.len() - i,
    {
        proof {
            assert(all.take(i + 1).drop_last() =~= all.take(i as int));
        }
        let ghost before = names@;
        if let Some(group) = group_name(&hosts[i]) {
            if !holds(&names, group) {
                names.push(group.to_string());
                proof {
                    assert(strings::texts(names@) =~= strings::texts(before).push(group@));
                }
            }
        }
        i += 1;
    }
    proof {
        assert(all.take(i as int) =~= all);
        assert(order::keyed(names@, names@) =~= by_itself(strings::texts(names@)));
    }
    let sorted = order::sort_by_keys(&names, &names);
    let ghost wanted = sorted_groups(all);
    let mut groups: Vec<HostGroup> = Vec::new();
    let mut j: usize = 0;
    while j < sorted.len()
        invariant
            j <= sorted@.len(),
            all == s3_main::host_models(hosts@),
            strings::texts(sorted@) == wanted,
            groups@.len() == j,
            forall|k: int|
                0 <= k < j ==> (#[trigger] groups@[k]).name@ == wanted[k] && row_models(
                    groups@[k].rows@,
                ) == rows_in(all, Some(groups@[k].name@)),
        decreases sorted@.len() - j,
    {
        let rows = rows_for(hosts, Some(sorted[j].as_str()));
        proof {
            assert(strings::texts(sorted@)[j as int] == sorted@[j as int]@);
        }
        groups.push(HostGroup { name: sorted[j].clone(), rows });
        j += 1;
    }
    proof {
        assert(strings::texts(sorted@).len() == sorted@.len());
    }
    Connections { ungrouped: rows_for(hosts, None), groups }
}

// ---------------------------------------------------------------------------
// Pages
// ---------------------------------------------------------------------------

/// A page in the list of pages.
#[derive(Debug)]
pub struct SidebarItem {
    pub section: SettingsSection,
    pub label: Text,
    pub active: bool,
}

/// The button that saves, and what is said of saving.
#[derive(Debug)]
pub struct SaveBar {
    pub label: Text,
    pub enabled: bool,
    pub saved: Option<Text>,
    pub error: Option<Text>,
}

/// The page of the application.
#[derive(Debug)]
pub struct ApplicationPage {
    pub choices: Vec<LangChoice>,
    pub selected: LangChoice,
    pub bar: SaveBar,
}

/// The page of syncing. There is a path only where there is something to sync
/// to, and the places that are one press away with it.
#[derive(Debug)]
pub struct SyncPage {
    pub modes: Vec<SyncModeItem>,
    pub selected: SyncModeItem,
    pub path: Option<String>,
    pub quick: Vec<QuickLocation>,
    pub bar: SaveBar,
}

/// The page of terminals.
#[derive(Debug)]
pub struct TerminalPage {
    pub scrollback: String,
    pub families: Vec<String>,
    pub family: String,
    pub sizes: Vec<u16>,
    pub size: u16,
    pub cursor_blink: bool,
    pub bar: SaveBar,
}

impl StateModel {
    /// The bar shows whether the settings are being saved, were saved, or
    /// could not be. While they are being saved they cannot be saved again.
    pub open spec fn barred_by(self, bar: SaveBar, lang: Lang) -> bool {
        &&& bar.label@ == text::tr(
            lang,
            if self.saving {
                "common_saving"@
            } else {
                "common_save"@
            },
        )
        &&& bar.enabled == !self.saving
        &&& text::opt_spans(bar.saved) == (if self.saved {
            Some(text::tr(lang, "common_saved"@))
        } else {
            None
        })
        &&& text::opt_spans(bar.error) == self.error
    }
}

/// The item names the mode.
pub open spec fn names_mode(item: SyncModeItem, mode: SyncMode, lang: Lang) -> bool {
    &&& item.mode == mode
    &&& item.label@ == text::tr(
        lang,
        match mode {
            SyncMode::Off => "settings_sync_mode_none"@,
            SyncMode::Local => "settings_sync_mode_local"@,
        },
    )
}

impl State {
    fn save_bar(&self, i18n: &I18n) -> (res: SaveBar)
        ensures
            self@.barred_by(res, i18n.lang),
    {
        SaveBar {
            label: if self.saving {
                i18n.tr("common_saving")
            } else {
                i18n.tr("common_save")
            },
            enabled: !self.saving,
            saved: if self.saved {
                Some(i18n.tr("common_saved"))
            } else {
                None
            },
            error: text::clone_opt(&self.error),
        }
    }

    /// The list of pages.
    pub fn view_sidebar(&self, i18n: &I18n) -> (res: Vec<SidebarItem>)
        ensures
            res@.len() == 5,
            forall|i: int|
                0 <= i < 5 ==> {
                    let section = seq![
                        SettingsSection::Application,
                        SettingsSection::Connections,
                        SettingsSection::Sync,
                        SettingsSection::Terminal,
                        SettingsSection::Backup,
                    ][i];
                    &&& (#[trigger] res@[i]).section == section
                    &&& res@[i].label@ == text::tr(i18n.lang, section.key())
                    &&& res@[i].active == (section == self@.active_section)
                },
    {
        let sections = SettingsSection::all();
        let mut out: Vec<SidebarItem> = Vec::new();
        let mut i: usize = 0;
        while i < sections.len()
            invariant
                i <= sections@.len(),
                out@.len() == i,
                forall|k: int|
                    0 <= k < i ==> {
                        &&& (#[trigger] out@[k]).section == sections@[k]
                        &&& out@[k].label@ == text::tr(i18n.lang, sections@[k].key())
                        &&& out@[k].active == (sections@[k] == self.active_section)
                    },
            decreases sections@.len() - i,
        {
            let section = sections[i];
            out.push(
                SidebarItem {
                    section,
                    label: section.label(i18n),
                    active: section == self.active_section,
                },
            );
            i += 1;
        }
        out
    }

    /// The page of the application.
    pub fn view_application(&self, i18n: &I18n) -> (res: ApplicationPage)
        ensures
            res.choices@ == seq![LangChoice::System, LangChoice::ZhCn, LangChoice::En],
            res.selected == self@.language,
            self@.barred_by(res.bar, i18n.lang),
    {
        let mut choices: Vec<LangChoice> = Vec::new();
        choices.push(LangChoice::System);
        choices.push(LangChoice::ZhCn);
        choices.push(LangChoice::En);
        ApplicationPage { choices, selected: self.language, bar: self.save_bar(i18n) }
    }

    /// The page of syncing.
    pub fn view_sync(&self, i18n: &I18n) -> (res: SyncPage)
        ensures
            res.modes@.len() == 2,
            names_mode(res.modes@[0], SyncMode::Off, i18n.lang),
            names_mode(res.modes@[1], SyncMode::Local, i18n.lang),
            names_mode(res.selected, self@.sync_mode, i18n.lang),
            strings::opt_text(res.path) == (if self@.sync_mode == SyncMode::Local {
                Some(self@.sync_local_path)
            } else {
                None
            }),
            res.quick@ == (if self@.sync_mode == SyncMode::Local {
                seq![QuickLocation::ICloud, QuickLocation::Home]
            } else {
                Seq::empty()
            }),
            self@.barred_by(res.bar, i18n.lang),
    {
        let mut modes: Vec<SyncModeItem> = Vec::new();
        modes.push(SyncModeItem::none(i18n));
        modes.push(SyncModeItem::local(i18n));
        let mut quick: Vec<QuickLocation> = Vec::new();
        let bar = self.save_bar(i18n);
        match self.sync_mode {
            SyncMode::Local => {
                quick.push(QuickLocation::ICloud);
                quick.push(QuickLocation::Home);
                SyncPage {
                    modes,
                    selected: SyncModeItem::local(i18n),
                    path: Some(self.sync_local_path.clone()),
                    quick,
                    bar,
                }
            },
            SyncMode::Off => SyncPage {
                modes,
                selected: SyncModeItem::none(i18n),
                path: None,
                quick,
                bar,
            },
        }
    }

    /// The page of terminals.
    pub fn view_terminal(&self, i18n: &I18n) -> (res: TerminalPage)
        ensures
            res.scrollback@ == self@.scrollback_lines,
            strings::texts(res.families@) == self@.terminal_font_families,
            res.family@ == self@.terminal_font_family,
            res.sizes@ == font_sizes(),
            res.size == self@.terminal_font_size,
            res.cursor_blink == self@.terminal_cursor_blink,
            self@.barred_by(res.bar, i18n.lang),
    {
        TerminalPage {
            scrollback: self.scrollback_lines.clone(),
            families: text::clone_strings(&self.terminal_font_families),
            family: self.terminal_font_family.clone(),
            sizes: terminal_font_sizes(),
            size: self.terminal_font_size,
            cursor_blink: self.terminal_cursor_blink,
            bar: self.save_bar(i18n),
        }
    }
}

proof fn lemma_some_size_is_nearest(units: i64, n: int) -> (k: int)
    requires
        0 < n <= font_sizes().len(),
    ensures
        0 <= k < n,
        forall|j: int|
            0 <= j < n ==> font_distance(font_sizes()[k], units) <= font_distance(
                #[trigger] font_sizes()[j],
                units,
            ),
        forall|j: int|
            0 <= j < k ==> font_distance(font_sizes()[k], units) < font_distance(
                #[trigger] font_sizes()[j],
                units,
            ),
    decreases n,
{
    if n == 1 {
        0
    } else {
        let k = lemma_some_size_is_nearest(units, n - 1);
        if font_distance(font_sizes()[n - 1], units) < font_distance(font_sizes()[k], units) {
            n - 1
        } else {
            k
        }
    }
}

/// The size that is offered first is one of the choices, and no choice is nearer
/// to the size that was saved; a size that is a choice is offered itself.
pub proof fn law_offered_size_is_nearest(units: i64, other: u16)
    requires
        font_sizes().contains(other),
    ensures
        font_sizes().contains(nearest_size(FontSize::Units(units))),
        ({
            let near = nearest_size(FontSize::Units(units)) * UNITS_PER_POINT - units;
            let far = other * UNITS_PER_POINT - units;
            (if near < 0 {
                -near
            } else {
                near
            }) <= (if far < 0 {
                -far
            } else {
                far
            })
        }),
        units == other * UNITS_PER_POINT ==> nearest_size(FontSize::Units(units)) == other,
{
    let k = lemma_some_size_is_nearest(units, font_sizes().len() as int);
    assert(is_nearest(k, units));
    let i = choose|i: int| is_nearest(i, units);
    assert(is_nearest(i, units));
    let j = choose|j: int| 0 <= j < font_sizes().len() && font_sizes()[j] == other;
    assert(font_sizes()[j] == other);
}

/// The settings show what was loaded: the directory that is synced with, which
/// decides the kind of syncing, the number of lines, the blinking of the cursor
/// and the language; nothing is being saved.
pub proof fn law_loaded_settings_show(loaded: Loaded)
    ensures
        ({
            let s = StateModel::of(loaded);
            let vault = loaded.settings@;
            &&& vault.sync_local_path matches Some(path) ==> s.sync_local_path == path
            &&& vault.sync_local_path is None ==> s.sync_local_path.len() == 0
            &&& s.sync_mode is Off <==> s.sync_local_path.len() == 0
            &&& strings::number_up_to(s.scrollback_lines, usize::MAX as nat) == Some(
                vault.scrollback_lines as nat,
            )
            &&& s.terminal_cursor_blink == vault.terminal_cursor_blink
            &&& s.vault_settings == vault
            &&& !s.saving
            &&& !s.saved
            &&& s.error is None
            &&& loaded.language is None ==> s.language is System
            &&& strings::opt_text(loaded.language) == Some("zh-CN"@) ==> s.language is ZhCn
            &&& strings::opt_text(loaded.language) == Some("en"@) ==> s.language is En
        }),
{
    strings::lemma_decimal_round_trip(loaded.settings@.scrollback_lines as nat);
    reveal_strlit("zh-CN");
    reveal_strlit("en");
    assert("zh-CN"@.len() == 5 && "en"@.len() == 2);
}

/// A font that is installed is selected where it was configured, in whatever
/// case it is written.
pub proof fn law_configured_font_is_selected(
    configured: Seq<char>,
    installed: Seq<Seq<char>>,
    i: int,
)
    requires
        0 <= i < installed.len(),
        strings::same_ascii(installed[i], configured),
    ensures
        strings::same_ascii(selected_font(configured, installed), configured),
{
    let p = |n: Seq<char>| strings::same_ascii(n, configured);
    assert(p(installed[i]));
    model::lemma_first_index_any(installed, p);
}

/// The list of hosts shows each host once, in the rows of its group and in
/// their order, by its name and where it is reached; one without a group, or
/// with an empty one, among those that have none.
pub proof fn law_hosts_stand_in_their_groups(
    hosts: Seq<HostModel>,
    h: HostModel,
    group: Option<Seq<char>>,
)
    ensures
        rows_in(Seq::empty(), group).len() == 0,
        ({
            let row = RowModel {
                id: h.id,
                name: h.name,
                address: h.user + "@"@ + h.host + ":"@ + strings::decimal(h.port as nat),
            };
            let own = if h.group is Some && h.group->0.len() > 0 {
                h.group
            } else {
                None
            };
            &&& group == own ==> rows_in(hosts.push(h), group) == rows_in(hosts, group).push(row)
            &&& group != own ==> rows_in(hosts.push(h), group) == rows_in(hosts, group)
        }),
{
    assert(hosts.push(h).drop_last() =~= hosts);
}

proof fn lemma_group_names(hosts: Seq<HostModel>, group: Seq<char>)
    ensures
        group_names(hosts).no_duplicates(),
        group_names(hosts).contains(group) <==> exists|i: int|
            0 <= i < hosts.len() && group.len() > 0 && (#[trigger] hosts[i]).group == Some(group),
    decreases hosts.len(),
{
    if hosts.len() > 0 {
        let init = hosts.drop_last();
        lemma_group_names(init, group);
        let before = group_names(init);
        let all = group_names(hosts);
        assert forall|i: int| 0 <= i < init.len() implies hosts[i] == #[trigger] init[i] by {}
        if before.contains(group) {
            let i = choose|i: int|
                0 <= i < init.len() && group.len() > 0 && (#[trigger] init[i]).group == Some(group);
            assert(hosts[i].group == Some(group));
            let k = choose|k: int| 0 <= k < before.len() && before[k] == group;
            assert(all[k] == group);
        }
        match group_of(hosts.last()) {
            Some(last) => {
                lemma_group_names(init, last);
                if !before.contains(last) {
                    assert(all.no_duplicates());
                    assert(all[before.len() as int] == last);
                }
                if last == group {
                    assert(hosts[hosts.len() - 1].group == Some(group));
                    assert(all.contains(group));
                }
            },
            None => {},
        }
        if exists|i: int|
            0 <= i < hosts.len() && group.len() > 0 && (#[trigger] hosts[i]).group == Some(group) {
            let i = choose|i: int|
                0 <= i < hosts.len() && group.len() > 0 && (#[trigger] hosts[i]).group == Some(
                    group,
                );
            if i < init.len() {
                assert(init[i].group == Some(group));
            }
        }
        if all.contains(group) && !before.contains(group) {
            let k = choose|k: int| 0 <= k < all.len() && all[k] == group;
            if k < before.len() {
                assert(before[k] == group);
            }
            assert(hosts[hosts.len() - 1].group == Some(group));
        }
    }
}

/// The groups are listed in the order of a dictionary: those, and only those,
/// that a host belongs to.
pub proof fn law_groups_are_listed_in_order(hosts: Seq<HostModel>, group: Seq<char>, i: int, j: int)
    ensures
        sorted_groups(hosts).contains(group) <==> exists|k: int|
            0 <= k < hosts.len() && group.len() > 0 && (#[trigger] hosts[k]).group == Some(group),
        0 <= i <= j < sorted_groups(hosts).len() ==> order::at_or_before(
            sorted_groups(hosts)[i],
            sorted_groups(hosts)[j],
        ),
        sorted_groups(hosts).len() == group_names(hosts).len(),
{
    broadcast use vstd::seq_lib::group_to_multiset_ensures;

    let names = group_names(hosts);
    let list = by_itself(names);
    let sorted = order::sorted(list);
    order::law_sorted_is_a_sorted_rearrangement(list);
    lemma_group_names(hosts, group);
    assert forall|k: int| 0 <= k < sorted.len() implies (#[trigger] sorted[k]).key
        == sorted[k].value && names.contains(sorted[k].value) by {
        lemma_sorted_member(list, k);
        let m = choose|m: int| 0 <= m < list.len() && list[m] == sorted[k];
        assert(names[m] == sorted[k].value);
    }
    let groups = sorted_groups(hosts);
    if groups.contains(group) {
        let k = choose|k: int| 0 <= k < groups.len() && groups[k] == group;
        assert(sorted[k].value == group);
    }
    if names.contains(group) {
        let m = choose|m: int| 0 <= m < names.len() && names[m] == group;
        assert(list.contains(list[m]));
        assert(sorted.to_multiset().count(list[m]) > 0);
        assert(sorted.contains(list[m]));
        let k = choose|k: int| 0 <= k < sorted.len() && sorted[k] == list[m];
        assert(groups[k] == group);
    }
    if 0 <= i <= j < groups.len() {
        assert(order::at_or_before(sorted[i].key, sorted[j].key));
    }
}

/// Saving shows on its bar: it can be started unless it is under way, and an
/// error shows as it is.
pub proof fn law_bar_shows_the_saving(s: StateModel, bar: SaveBar, lang: Lang)
    requires
        s.barred_by(bar, lang),
    ensures
        bar.enabled <==> !s.saving,
        bar.saved is Some <==> s.saved,
        bar.error is Some <==> s.error is Some,
{
}

} // verus!
