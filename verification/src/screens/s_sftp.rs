//! The files of a host: paths, selection, visited directories, and what the
//! list shows.
use std::collections::VecDeque;

use vstd::prelude::*;

use crate::model;
use crate::names::NameSet;
use crate::strings;
use crate::term::widget::MenuPoint;
use crate::text;
use crate::text::{I18n, Lang, SpanModel, Text};

verus! {

/// How many entries show at first.
pub const DIRECTORY_PAGE_SIZE: usize = 200;

/// How long a visited directory needs no reading, in nanoseconds.
pub const DIRECTORY_CACHE_TTL: u64 = 30_000_000_000;

/// How many visited directories are kept.
pub const DIRECTORY_CACHE_CAPACITY: usize = 16;

// ---------------------------------------------------------------------------
// Paths
// ---------------------------------------------------------------------------

/// The path of a name in a directory.
pub open spec fn joined_path(base: Seq<char>, name: Seq<char>) -> Seq<char> {
    if base == "/"@ {
        "/"@ + name
    } else if base == "."@ {
        name
    } else {
        strings::without_end(base, '/') + "/"@ + name
    }
}

/// The slash at `at` is the last one.
pub open spec fn last_slash(path: Seq<char>, at: int) -> bool {
    &&& 0 <= at < path.len()
    &&& path[at] == '/'
    &&& forall|i: int| at < i < path.len() ==> path[i] != '/'
}

/// The directory that holds a path.
pub open spec fn parent_path(path: Seq<char>) -> Seq<char> {
    if path == "."@ || path == "/"@ {
        path
    } else if !path.contains('/') {
        "."@
    } else {
        let at = choose|at: int| last_slash(path, at);
        if at == 0 {
            "/"@
        } else {
            path.take(at)
        }
    }
}

/// The path of a name in a directory.
pub fn join_remote(base: &str, name: &str) -> (res: String)
    ensures
        res@ == joined_path(base@, name@),
{
    if strings::text_eq(base, "/") {
        strings::concat("/", name)
    } else if strings::text_eq(base, ".") {
        name.to_string()
    } else {
        let trimmed = strings::trim_end_char(base, '/');
        strings::concat3(trimmed.as_str(), "/", name)
    }
}

proof fn lemma_one_last_slash(path: Seq<char>, at: int)
    requires
        last_slash(path, at),
    ensures
        path.contains('/'),
        (choose|i: int| last_slash(path, i)) == at,
{
    let c = choose|i: int| last_slash(path, i);
    assert(last_slash(path, c));
    assert(path[at] == '/' && path[c] == '/');
}

/// The directory that holds a path.
pub fn parent_remote(path: &str) -> (res: String)
    ensures
        res@ == parent_path(path@),
{
    if strings::text_eq(path, ".") || strings::text_eq(path, "/") {
        return path.to_string();
    }
    let chars = strings::chars_of(path);
    let mut i: usize = chars.len();
    while i > 0
        invariant
            i <= chars@.len(),
            chars@ == path@,
            path@ != "."@,
            path@ != "/"@,
            forall|k: int| i <= k < chars@.len() ==> chars@[k] != '/',
        decreases i,
    {
        i -= 1;
        if chars[i] == '/' {
            proof {
                lemma_one_last_slash(path@, i as int);
                assert(chars@.subrange(0, i as int) =~= path@.take(i as int));
            }
            return if i == 0 {
                "/".to_string()
            } else {
                strings::string_of(&chars, 0, i)
            };
        }
    }
    ".".to_string()
}

/// The directory that holds a name in a directory is that directory. Its path
/// has to be written without a slash at its end, and the name without any.
pub proof fn law_parent_undoes_join(base: Seq<char>, name: Seq<char>)
    requires
        base.len() > 0,
        base == "/"@ || base.last() != '/',
        !name.contains('/'),
    ensures
        parent_path(joined_path(base, name)) == base,
{
    reveal_strlit("/");
    reveal_strlit(".");
    let slash = "/"@;
    let path = joined_path(base, name);
    if base == "."@ {
        assert(name != slash) by {
            if name == slash {
                assert(name[0] == '/');
            }
        }
        assert(parent_path(name) == base);
    } else {
        let dir = if base == slash {
            Seq::<char>::empty()
        } else {
            base
        };
        assert(path =~= dir + slash + name);
        let at = dir.len() as int;
        assert(path[at] == '/');
        assert forall|i: int| at < i < path.len() implies path[i] != '/' by {
            assert(path[i] == name[i - at - 1]);
        }
        lemma_one_last_slash(path, at);
        if base == slash {
            if path == slash {
            }
            assert(path != "."@) by {
                assert(path[0] == '/');
                assert("."@[0] == '.');
            }
        } else {
            assert(path.take(at) =~= base);
            assert(path != slash) by {
                assert(path.len() >= 2);
            }
            assert(path != "."@) by {
                assert(path.len() >= 2);
            }
        }
    }
}

// ---------------------------------------------------------------------------
// Entries
// ---------------------------------------------------------------------------

/// A file or a directory.
#[derive(Debug, PartialEq)]
pub struct Entry {
    pub name: String,
    pub is_dir: bool,
    pub size: u64,
    pub permissions: String,
    pub modified: String,
}

#[verifier::ext_equal]
pub struct EntryModel {
    pub name: Seq<char>,
    pub is_dir: bool,
    pub size: u64,
    pub permissions: Seq<char>,
    pub modified: Seq<char>,
}

impl View for Entry {
    type V = EntryModel;

    open spec fn view(&self) -> EntryModel {
        EntryModel {
            name: self.name@,
            is_dir: self.is_dir,
            size: self.size,
            permissions: self.permissions@,
            modified: self.modified@,
        }
    }
}

impl Clone for Entry {
    fn clone(&self) -> (copy: Self)
        ensures
            copy@ == self@,
    {
        Entry {
            name: self.name.clone(),
            is_dir: self.is_dir,
            size: self.size,
            permissions: self.permissions.clone(),
            modified: self.modified.clone(),
        }
    }
}

/// The entries of a list.
pub open spec fn entry_models(list: Seq<Entry>) -> Seq<EntryModel> {
    Seq::new(list.len(), |i: int| list[i]@)
}

fn clone_entries(list: &Vec<Entry>) -> (copy: Vec<Entry>)
    ensures
        entry_models(copy@) == entry_models(list@),
{
    let mut out: Vec<Entry> = Vec::new();
    let mut i: usize = 0;
    while i < list.len()
        invariant
            i <= list@.len(),
            out@.len() == i,
            forall|k: int| 0 <= k < i ==> (#[trigger] out@[k])@ == list@[k]@,
        decreases list@.len() - i,
    {
        out.push(list[i].clone());
        i += 1;
    }
    proof {
        assert(entry_models(out@) =~= entry_models(list@));
    }
    out
}

/// Entries by name.
pub open spec fn named(name: Seq<char>) -> spec_fn(EntryModel) -> bool {
    |e: EntryModel| e.name == name
}

fn find_entry(entries: &Vec<Entry>, name: &str) -> (res: Option<usize>)
    ensures
        match res {
            Some(i) => i < entries@.len() && model::first_index(
                entry_models(entries@),
                named(name@),
            ) == Some(i as int),
            None => model::first_index(entry_models(entries@), named(name@)) == None::<int>,
        },
{
    let ghost all = entry_models(entries@);
    let mut i: usize = 0;
    while i < entries.len()
        invariant
            i <= entries@.len(),
            all == entry_models(entries@),
            forall|k: int| 0 <= k < i ==> !named(name@)(#[trigger] all[k]),
        decreases entries@.len() - i,
    {
        if strings::text_eq(entries[i].name.as_str(), name) {
            proof {
                assert(named(name@)(all[i as int]));
                model::lemma_first_index_some(all, named(name@), i as int);
            }
            return Some(i);
        }
        proof {
            assert(!named(name@)(all[i as int]));
        }
        i += 1;
    }
    proof {
        model::lemma_first_index_none(all, named(name@));
    }
    None
}

// ---------------------------------------------------------------------------
// Visited directories
// ---------------------------------------------------------------------------

/// A visited directory, and when it was read.
#[derive(Debug)]
pub struct CachedDirectory {
    pub path: String,
    pub entries: Vec<Entry>,
    pub fetched_at: u64,
}

#[verifier::ext_equal]
pub struct CachedModel {
    pub path: Seq<char>,
    pub entries: Seq<EntryModel>,
    pub fetched_at: u64,
}

impl View for CachedDirectory {
    type V = CachedModel;

    open spec fn view(&self) -> CachedModel {
        CachedModel {
            path: self.path@,
            entries: entry_models(self.entries@),
            fetched_at: self.fetched_at,
        }
    }
}

/// The visited directories of a list.
pub open spec fn cached_models(list: Seq<CachedDirectory>) -> Seq<CachedModel> {
    Seq::new(list.len(), |i: int| list[i]@)
}

/// Visited directories by path.
pub open spec fn at_path(path: Seq<char>) -> spec_fn(CachedModel) -> bool {
    |c: CachedModel| c.path == path
}

/// Where a visited directory is kept.
pub open spec fn cached_at(cache: Seq<CachedModel>, path: Seq<char>) -> Option<int> {
    model::first_index(cache, at_path(path))
}

/// Each directory is kept once, and no more of them than there is room for.
pub open spec fn cache_wf(cache: Seq<CachedModel>) -> bool {
    &&& cache.len() <= DIRECTORY_CACHE_CAPACITY
    &&& forall|i: int, j: int|
        0 <= i < j < cache.len() ==> (#[trigger] cache[i]).path != (#[trigger] cache[j]).path
}

/// The visited directories with one of them read anew: it becomes the newest,
/// and the oldest ones give way where there is no room.
pub open spec fn with_cached(cache: Seq<CachedModel>, c: CachedModel) -> Seq<CachedModel> {
    let kept = match cached_at(cache, c.path) {
        Some(i) => cache.remove(i),
        None => cache,
    };
    let all = kept.push(c);
    if all.len() > DIRECTORY_CACHE_CAPACITY {
        all.skip(all.len() - DIRECTORY_CACHE_CAPACITY)
    } else {
        all
    }
}

/// A directory that was read at `then` needs no reading at `now`.
pub open spec fn is_fresh(then: u64, now: u64) -> bool {
    now - then <= DIRECTORY_CACHE_TTL
}

fn find_cached(cache: &Vec<CachedDirectory>, path: &str) -> (res: Option<usize>)
    ensures
        match res {
            Some(i) => i < cache@.len() && cached_at(cached_models(cache@), path@) == Some(
                i as int,
            ),
            None => cached_at(cached_models(cache@), path@) == None::<int>,
        },
{
    let ghost all = cached_models(cache@);
    let mut i: usize = 0;
    while i < cache.len()
        invariant
            i <= cache@.len(),
            all == cached_models(cache@),
            forall|k: int| 0 <= k < i ==> !at_path(path@)(#[trigger] all[k]),
        decreases cache@.len() - i,
    {
        if strings::text_eq(cache[i].path.as_str(), path) {
            proof {
                assert(at_path(path@)(all[i as int]));
                model::lemma_first_index_some(all, at_path(path@), i as int);
            }
            return Some(i);
        }
        proof {
            assert(!at_path(path@)(all[i as int]));
        }
        i += 1;
    }
    proof {
        model::lemma_first_index_none(all, at_path(path@));
    }
    None
}

// ---------------------------------------------------------------------------
// State
// ---------------------------------------------------------------------------

/// The files of a host.
#[derive(Debug)]
pub struct State {
    pub host_id: String,
    pub host_name: String,
    pub path: String,
    pub entries: Vec<Entry>,
    pub selected: NameSet,
    pub selection_anchor: Option<String>,
    /// What was selected before the current range.
    pub selection_base: NameSet,
    pub selection_additive: bool,
    pub selection_dragging: bool,
    pub hovered: Option<String>,
    pub context_entry: Option<String>,
    pub cursor_position: MenuPoint,
    pub context_position: Option<MenuPoint>,
    pub loading: bool,
    pub loading_pulse: bool,
    pub error: Option<Text>,
    pub notice: Option<Text>,
    pub show_create_directory: bool,
    pub new_directory_name: String,
    pub show_filter: bool,
    pub filter: String,
    pub drag_hovered: bool,
    /// The local path, and the remote one that was open when it was dropped.
    pub pending_uploads: VecDeque<(String, String)>,
    pub upload_in_progress: bool,
    /// The remote path, the local one, and whether it is a directory.
    pub pending_downloads: VecDeque<(String, String, bool)>,
    pub download_in_progress: bool,
    pub visible_limit: usize,
    /// The visited directories, the oldest first.
    pub cache: Vec<CachedDirectory>,
}

#[verifier::ext_equal]
pub struct StateModel {
    pub host_id: Seq<char>,
    pub host_name: Seq<char>,
    pub path: Seq<char>,
    pub entries: Seq<EntryModel>,
    pub selected: Set<Seq<char>>,
    pub selection_anchor: Option<Seq<char>>,
    pub selection_base: Set<Seq<char>>,
    pub selection_additive: bool,
    pub selection_dragging: bool,
    pub hovered: Option<Seq<char>>,
    pub context_entry: Option<Seq<char>>,
    pub cursor_position: MenuPoint,
    pub context_position: Option<MenuPoint>,
    pub loading: bool,
    pub loading_pulse: bool,
    pub error: Option<Seq<SpanModel>>,
    pub notice: Option<Seq<SpanModel>>,
    pub show_create_directory: bool,
    pub new_directory_name: Seq<char>,
    pub show_filter: bool,
    pub filter: Seq<char>,
    pub drag_hovered: bool,
    pub pending_uploads: Seq<(String, String)>,
    pub upload_in_progress: bool,
    pub pending_downloads: Seq<(String, String, bool)>,
    pub download_in_progress: bool,
    pub visible_limit: usize,
    pub cache: Seq<CachedModel>,
}

impl View for State {
    type V = StateModel;

    open spec fn view(&self) -> StateModel {
        StateModel {
            host_id: self.host_id@,
            host_name: self.host_name@,
            path: self.path@,
            entries: entry_models(self.entries@),
            selected: self.selected@,
            selection_anchor: strings::opt_text(self.selection_anchor),
            selection_base: self.selection_base@,
            selection_additive: self.selection_additive,
            selection_dragging: self.selection_dragging,
            hovered: strings::opt_text(self.hovered),
            context_entry: strings::opt_text(self.context_entry),
            cursor_position: self.cursor_position,
            context_position: self.context_position,
            loading: self.loading,
            loading_pulse: self.loading_pulse,
            error: text::opt_spans(self.error),
            notice: text::opt_spans(self.notice),
            show_create_directory: self.show_create_directory,
            new_directory_name: self.new_directory_name@,
            show_filter: self.show_filter,
            filter: self.filter@,
            drag_hovered: self.drag_hovered,
            pending_uploads: self.pending_uploads@,
            upload_in_progress: self.upload_in_progress,
            pending_downloads: self.pending_downloads@,
            download_in_progress: self.download_in_progress,
            visible_limit: self.visible_limit,
            cache: cached_models(self.cache@),
        }
    }
}

/// The names of the entries from one place up to before another.
pub open spec fn names_from(entries: Seq<EntryModel>, from: int, to: int) -> Set<Seq<char>> {
    Set::new(
        |name: Seq<char>|
            exists|i: int| from <= i < to && (#[trigger] entries[i]).name == name,
    )
}

/// The names of the entries between two places, whichever comes first.
pub open spec fn names_between(entries: Seq<EntryModel>, a: int, b: int) -> Set<Seq<char>> {
    if a <= b {
        names_from(entries, a, b + 1)
    } else {
        names_from(entries, b, a + 1)
    }
}

proof fn lemma_names_from(entries: Seq<EntryModel>, from: int, to: int)
    requires
        from <= to,
    ensures
        names_from(entries, from, from) == Set::<Seq<char>>::empty(),
        names_from(entries, from, to + 1) == names_from(entries, from, to).insert(
            entries[to].name,
        ),
{
    assert(names_from(entries, from, from) =~= Set::<Seq<char>>::empty());
    let a = names_from(entries, from, to + 1);
    let b = names_from(entries, from, to).insert(entries[to].name);
    assert forall|x: Seq<char>| a.contains(x) implies b.contains(x) by {
        let i = choose|i: int| from <= i < to + 1 && (#[trigger] entries[i]).name == x;
        assert(entries[i].name == x);
    }
    assert forall|x: Seq<char>| b.contains(x) implies a.contains(x) by {
        if x == entries[to].name {
            assert(entries[to].name == x);
        } else {
            let i = choose|i: int| from <= i < to && (#[trigger] entries[i]).name == x;
            assert(entries[i].name == x);
        }
    }
    assert(a =~= b);
}

proof fn lemma_with_cached_wf(cache: Seq<CachedModel>, c: CachedModel)
    requires
        cache_wf(cache),
    ensures
        cache_wf(with_cached(cache, c)),
        with_cached(cache, c).len() > 0,
        with_cached(cache, c).last() == c,
{
    model::lemma_first_index_any(cache, at_path(c.path));
    let kept = match cached_at(cache, c.path) {
        Some(i) => cache.remove(i),
        None => cache,
    };
    let all = kept.push(c);
    assert forall|i: int| 0 <= i < kept.len() implies (#[trigger] kept[i]).path != c.path by {
        match cached_at(cache, c.path) {
            Some(at) => {
                assert(at_path(c.path)(cache[at]));
                let k = if i < at {
                    i
                } else {
                    i + 1
                };
                assert(kept[i] == cache[k]);
                if k < at {
                    assert(cache[k].path != cache[at].path);
                } else {
                    assert(cache[at].path != cache[k].path);
                }
            },
            None => {
                assert(!at_path(c.path)(cache[i]));
            },
        }
    }
    assert forall|i: int, j: int| 0 <= i < j < all.len() implies (#[trigger] all[i]).path != (
    #[trigger] all[j]).path by {
        if j < kept.len() {
            match cached_at(cache, c.path) {
                Some(at) => {
                    let k = if i < at {
                        i
                    } else {
                        i + 1
                    };
                    let l = if j < at {
                        j
                    } else {
                        j + 1
                    };
                    assert(all[i] == cache[k] && all[j] == cache[l]);
                },
                None => {
                    assert(all[i] == cache[i] && all[j] == cache[j]);
                },
            }
        } else {
            assert(all[i] == kept[i]);
        }
    }
    let after = with_cached(cache, c);
    let shift = all.len() - after.len();
    assert forall|i: int, j: int| 0 <= i < j < after.len() implies (#[trigger] after[i]).path != (
    #[trigger] after[j]).path by {
        assert(after[i] == all[i + shift] && after[j] == all[j + shift]);
    }
}

impl StateModel {
    pub open spec fn opened(host_id: Seq<char>, host_name: Seq<char>) -> StateModel {
        StateModel {
            host_id,
            host_name,
            path: "."@,
            entries: Seq::empty(),
            selected: Set::empty(),
            selection_anchor: None,
            selection_base: Set::empty(),
            selection_additive: false,
            selection_dragging: false,
            hovered: None,
            context_entry: None,
            cursor_position: MenuPoint { x_bits: 0, y_bits: 0 },
            context_position: None,
            loading: true,
            loading_pulse: false,
            error: None,
            notice: None,
            show_create_directory: false,
            new_directory_name: Seq::empty(),
            show_filter: false,
            filter: Seq::empty(),
            drag_hovered: false,
            pending_uploads: Seq::empty(),
            upload_in_progress: false,
            pending_downloads: Seq::empty(),
            download_in_progress: false,
            visible_limit: DIRECTORY_PAGE_SIZE,
            cache: Seq::empty(),
        }
    }

    /// Nothing is selected or pointed at.
    pub open spec fn unselected(self) -> StateModel {
        StateModel {
            selected: Set::empty(),
            selection_anchor: None,
            selection_base: Set::empty(),
            selection_dragging: false,
            hovered: None,
            context_entry: None,
            context_position: None,
            ..self
        }
    }

    /// A visited directory shows again, and whether it needs no reading.
    pub open spec fn restored(self, path: Seq<char>, now: u64) -> Option<(StateModel, bool)> {
        match cached_at(self.cache, path) {
            Some(i) => Some(
                (
                    StateModel {
                        path,
                        entries: self.cache[i].entries,
                        visible_limit: DIRECTORY_PAGE_SIZE,
                        ..self.unselected()
                    },
                    is_fresh(self.cache[i].fetched_at, now),
                ),
            ),
            None => None,
        }
    }

    /// The entries from the one where the selection began to another one are
    /// selected, besides what was selected before.
    pub open spec fn ranged_to(self, name: Seq<char>) -> StateModel {
        match self.selection_anchor {
            Some(anchor) => match (
                model::first_index(self.entries, named(anchor)),
                model::first_index(self.entries, named(name)),
            ) {
                (Some(a), Some(b)) => StateModel {
                    selected: self.selection_base.union(names_between(self.entries, a, b)),
                    ..self
                },
                _ => self,
            },
            None => self,
        }
    }
}

impl State {
    /// The sets are in order, and the visited directories within bounds.
    pub open spec fn wf(self) -> bool {
        &&& self.selected.wf()
        &&& self.selection_base.wf()
        &&& cache_wf(cached_models(self.cache@))
    }

    pub fn new(host_id: String, host_name: String) -> (res: State)
        ensures
            res@ == StateModel::opened(host_id@, host_name@),
            res.wf(),
    {
        let res = State {
            host_id,
            host_name,
            path: ".".to_string(),
            entries: Vec::new(),
            selected: NameSet::new(),
            selection_anchor: None,
            selection_base: NameSet::new(),
            selection_additive: false,
            selection_dragging: false,
            hovered: None,
            context_entry: None,
            cursor_position: MenuPoint { x_bits: 0, y_bits: 0 },
            context_position: None,
            loading: true,
            loading_pulse: false,
            error: None,
            notice: None,
            show_create_directory: false,
            new_directory_name: String::new(),
            show_filter: false,
            filter: String::new(),
            drag_hovered: false,
            pending_uploads: VecDeque::new(),
            upload_in_progress: false,
            pending_downloads: VecDeque::new(),
            download_in_progress: false,
            visible_limit: DIRECTORY_PAGE_SIZE,
            cache: Vec::new(),
        };
        proof {
            assert(res@ =~= StateModel::opened(host_id@, host_name@));
        }
        res
    }

    /// Nothing is selected or pointed at.
    pub fn reset_selection(&mut self)
        requires
            old(self).wf(),
        ensures
            final(self).wf(),
            final(self)@ == old(self)@.unselected(),
    {
        self.selected = NameSet::new();
        self.selection_anchor = None;
        self.selection_base = NameSet::new();
        self.selection_dragging = false;
        self.hovered = None;
        self.context_entry = None;
        self.context_position = None;
    }

    /// A visited directory shows again at once. Says whether it needs no
    /// reading, by the time in nanoseconds; `None` where it was not visited.
    pub fn restore_cached(&mut self, path: &str, now: u64) -> (res: Option<bool>)
        requires
            old(self).wf(),
        ensures
            final(self).wf(),
            match res {
                Some(fresh) => old(self)@.restored(path@, now) == Some((final(self)@, fresh)),
                None => old(self)@.restored(path@, now) is None && final(self)@ == old(self)@,
            },
    {
        let i: usize = match find_cached(&self.cache, path) {
            Some(i) => i,
            None => return None,
        };
        proof {
            assert(self@.cache[i as int] == self.cache@[i as int]@);
        }
        let entries = clone_entries(&self.cache[i].entries);
        let fetched_at: u64 = self.cache[i].fetched_at;
        self.path = path.to_string();
        self.entries = entries;
        self.reset_selection();
        self.visible_limit = DIRECTORY_PAGE_SIZE;
        Some(now <= fetched_at || now - fetched_at <= DIRECTORY_CACHE_TTL)
    }

    /// Keeps a directory that was read, with the time in nanoseconds.
    pub fn remember_directory(&mut self, path: String, entries: Vec<Entry>, now: u64)
        requires
            old(self).wf(),
        ensures
            final(self).wf(),
            final(self)@ == (StateModel {
                cache: with_cached(
                    old(self)@.cache,
                    CachedModel { path: path@, entries: entry_models(entries@), fetched_at: now },
                ),
                ..old(self)@
            }),
    {
        let ghost start = self.cache@;
        let ghost c = CachedModel {
            path: path@,
            entries: entry_models(entries@),
            fetched_at: now,
        };
        if let Some(i) = find_cached(&self.cache, path.as_str()) {
            self.cache.remove(i);
            proof {
                assert(cached_models(self.cache@) =~= cached_models(start).remove(i as int));
            }
        }
        let ghost kept = self.cache@;
        self.cache.push(CachedDirectory { path, entries, fetched_at: now });
        let ghost all = self.cache@;
        proof {
            assert(cached_models(all) =~= cached_models(kept).push(c));
            assert(all.skip(0) =~= all);
        }
        let ghost mut dropped: int = 0;
        while self.cache.len() > DIRECTORY_CACHE_CAPACITY
            invariant
                0 <= dropped <= all.len(),
                self.cache@ == all.skip(dropped),
                dropped > 0 ==> self.cache@.len() >= DIRECTORY_CACHE_CAPACITY,
                self@ == (StateModel { cache: self@.cache, ..old(self)@ }),
                self.selected.wf(),
                self.selection_base.wf(),
            decreases self.cache@.len(),
        {
            self.cache.remove(0);
            proof {
                assert(all.skip(dropped).remove(0) =~= all.skip(dropped + 1));
                dropped = dropped + 1;
            }
        }
        proof {
            lemma_with_cached_wf(cached_models(start), c);
            assert(cached_models(self.cache@) =~= with_cached(cached_models(start), c));
        }
    }

    /// Selects the entries from the one where the selection began to another
    /// one, besides what was selected before.
    pub fn select_range_to(&mut self, name: &str)
        requires
            old(self).wf(),
        ensures
            final(self).wf(),
            final(self)@ == old(self)@.ranged_to(name@),
    {
        let start: usize = match &self.selection_anchor {
            Some(anchor) => match find_entry(&self.entries, anchor.as_str()) {
                Some(i) => i,
                None => return ,
            },
            None => return ,
        };
        let end: usize = match find_entry(&self.entries, name) {
            Some(i) => i,
            None => return ,
        };
        let first: usize = if start <= end {
            start
        } else {
            end
        };
        let last: usize = if start <= end {
            end
        } else {
            start
        };
        let ghost all = entry_models(self.entries@);
        let mut range = NameSet::new();
        let mut i: usize = first;
        proof {
            lemma_names_from(all, first as int, first as int);
        }
        while i <= last
            invariant
                first <= i <= last + 1,
                last < self.entries.len(),
                all == entry_models(self.entries@),
                range.wf(),
                range@ == names_from(all, first as int, i as int),
                *self == *old(self),
            decreases last + 1 - i,
        {
            proof {
                lemma_names_from(all, first as int, i as int);
            }
            range.insert(self.entries[i].name.clone());
            i += 1;
        }
        self.selected = self.selection_base.union(&range);
    }
}

// ---------------------------------------------------------------------------
// What the list shows
// ---------------------------------------------------------------------------

/// What a filter asks for.
pub open spec fn wanted(filter: Seq<char>) -> Seq<char> {
    strings::lowercase(strings::trimmed(filter))
}

/// The entries whose names hold what the filter asks for, in whatever case; all
/// of them where it asks for nothing.
pub open spec fn matching(entries: Seq<EntryModel>, filter: Seq<char>) -> Seq<EntryModel>
    decreases entries.len(),
{
    if entries.len() == 0 {
        Seq::empty()
    } else {
        let before = matching(entries.drop_last(), filter);
        if passes(entries.last(), filter) {
            before.push(entries.last())
        } else {
            before
        }
    }
}

/// The entry passes the filter.
pub open spec fn passes(e: EntryModel, filter: Seq<char>) -> bool {
    wanted(filter).len() == 0 || strings::has_part(strings::lowercase(e.name), wanted(filter))
}

/// The size of an entry; a directory has none.
#[derive(Debug, Clone, Copy, PartialEq, Eq, Structural)]
pub enum SizeLabel {
    Dash,
    Bytes(u64),
}

/// A line of the list.
#[derive(Debug)]
pub struct Row {
    pub name: String,
    /// The whole path.
    pub target: String,
    pub is_dir: bool,
    pub size: SizeLabel,
    pub modified: String,
    pub permissions: String,
    pub selected: bool,
    pub hovered: bool,
    /// A double click opens it.
    pub opens: bool,
}

#[verifier::ext_equal]
pub struct RowModel {
    pub name: Seq<char>,
    pub target: Seq<char>,
    pub is_dir: bool,
    pub size: SizeLabel,
    pub modified: Seq<char>,
    pub permissions: Seq<char>,
    pub selected: bool,
    pub hovered: bool,
    pub opens: bool,
}

impl View for Row {
    type V = RowModel;

    open spec fn view(&self) -> RowModel {
        RowModel {
            name: self.name@,
            target: self.target@,
            is_dir: self.is_dir,
            size: self.size,
            modified: self.modified@,
            permissions: self.permissions@,
            selected: self.selected,
            hovered: self.hovered,
            opens: self.opens,
        }
    }
}

/// The lines of a list.
pub open spec fn row_models(list: Seq<Row>) -> Seq<RowModel> {
    Seq::new(list.len(), |i: int| list[i]@)
}

/// The menu of an entry.
#[derive(Debug)]
pub struct EntryMenu {
    pub position: MenuPoint,
    /// The whole path.
    pub target: String,
    /// It is a directory that can be opened.
    pub opens: bool,
}

/// The whole screen.
#[derive(Debug)]
pub struct Listing {
    pub title: Text,
    pub download_label: Text,
    pub can_download: bool,
    /// Refreshing and going to the directory above are possible.
    pub can_move: bool,
    pub path: String,
    /// There is a directory above.
    pub has_parent: bool,
    pub rows: Vec<Row>,
    /// Why there are no lines.
    pub empty: Option<Text>,
    /// How many lines show, of how many.
    pub more: Option<Text>,
    pub can_create: bool,
    pub drop_hint: Option<Text>,
    pub uploading: Option<Text>,
    pub downloading: Option<Text>,
    pub menu: Option<EntryMenu>,
}

impl StateModel {
    /// The line of an entry.
    pub open spec fn row(self, e: EntryModel) -> RowModel {
        RowModel {
            name: e.name,
            target: joined_path(self.path, e.name),
            is_dir: e.is_dir,
            size: if e.is_dir {
                SizeLabel::Dash
            } else {
                SizeLabel::Bytes(e.size)
            },
            modified: e.modified,
            permissions: e.permissions,
            selected: self.selected.contains(e.name),
            hovered: self.hovered == Some(e.name),
            opens: e.is_dir && !self.loading,
        }
    }

    pub open spec fn found(self) -> Seq<EntryModel> {
        matching(self.entries, self.filter)
    }

    /// How many lines show.
    pub open spec fn shown_count(self) -> int {
        if self.found().len() <= self.visible_limit {
            self.found().len() as int
        } else {
            self.visible_limit as int
        }
    }

    /// The lines: the first entries that pass the filter.
    pub open spec fn rows(self) -> Seq<RowModel> {
        Seq::new(self.shown_count() as nat, |i: int| self.row(self.found()[i]))
    }

    /// Why there are no lines.
    pub open spec fn empty_text(self, lang: Lang) -> Option<Seq<SpanModel>> {
        if self.loading || self.found().len() > 0 {
            None
        } else if strings::trimmed(self.filter).len() == 0 {
            Some(text::tr(lang, "sftp_empty"@))
        } else {
            Some(text::tr(lang, "sftp_filter_empty"@))
        }
    }

    /// How many lines show, of how many, where not all of them do.
    pub open spec fn more_text(self, lang: Lang) -> Option<Seq<SpanModel>> {
        if self.shown_count() < self.found().len() {
            Some(
                text::trf2(
                    lang,
                    "sftp_visible_count"@,
                    strings::decimal(self.shown_count() as nat),
                    strings::decimal(self.found().len()),
                ),
            )
        } else {
            None
        }
    }

    pub open spec fn download_label(self, lang: Lang) -> Seq<SpanModel> {
        if self.selected.len() == 0 {
            text::tr(lang, "sftp_download"@)
        } else {
            text::trf1(lang, "sftp_download_count"@, strings::decimal(self.selected.len()))
        }
    }

    /// The entry whose menu is open, where it is in the list.
    pub open spec fn menu_entry(self) -> Option<EntryModel> {
        match (self.context_entry, self.context_position) {
            (Some(name), Some(_)) => model::first_match(self.entries, named(name)),
            _ => None,
        }
    }

    /// The menu is that of the entry.
    pub open spec fn menu_is(self, menu: Option<EntryMenu>) -> bool {
        match self.menu_entry() {
            Some(e) => menu matches Some(m) && m.position == self.context_position->0
                && m.target@ == joined_path(self.path, self.context_entry->0) && m.opens
                == e.is_dir,
            None => menu is None,
        }
    }

    /// The screen shows the state.
    pub open spec fn shown_by(self, l: Listing, lang: Lang) -> bool {
        &&& l.title@ == text::trf1(lang, "sftp_title"@, self.host_name)
        &&& l.download_label@ == self.download_label(lang)
        &&& l.can_download == (self.selected.len() > 0)
        &&& l.can_move == !self.loading
        &&& l.path@ == self.path
        &&& l.has_parent == (self.path != "/"@)
        &&& row_models(l.rows@) == self.rows()
        &&& text::opt_spans(l.empty) == self.empty_text(lang)
        &&& text::opt_spans(l.more) == self.more_text(lang)
        &&& l.can_create == (strings::trimmed(self.new_directory_name).len() > 0)
        &&& text::opt_spans(l.drop_hint) == (if self.drag_hovered {
            Some(text::trf1(lang, "sftp_drop_upload"@, self.path))
        } else {
            None
        })
        &&& text::opt_spans(l.uploading) == queue_text(
            lang,
            "sftp_uploading_items"@,
            self.pending_uploads.len(),
            self.upload_in_progress,
        )
        &&& text::opt_spans(l.downloading) == queue_text(
            lang,
            "sftp_downloading_items"@,
            self.pending_downloads.len(),
            self.download_in_progress,
        )
        &&& self.menu_is(l.menu)
    }
}

/// How many transfers are left, the one that is going on counted too.
pub open spec fn queue_text(lang: Lang, key: Seq<char>, waiting: nat, running: bool) -> Option<
    Seq<SpanModel>,
> {
    let count: nat = if running {
        waiting + 1
    } else {
        waiting
    };
    if count == 0 {
        None
    } else {
        Some(text::trf1(lang, key, strings::decimal(count)))
    }
}

fn queue_line(i18n: &I18n, key: &str, waiting: usize, running: bool) -> (res: Option<Text>)
    requires
        waiting < usize::MAX,
    ensures
        text::opt_spans(res) == queue_text(i18n.lang, key@, waiting as nat, running),
{
    let count: usize = if running {
        waiting + 1
    } else {
        waiting
    };
    if count == 0 {
        None
    } else {
        Some(i18n.trf1(key, strings::decimal_text(count as u64)))
    }
}

impl State {
    fn found(&self) -> (res: Vec<usize>)
        ensures
            res@.len() == self@.found().len(),
            forall|i: int|
                0 <= i < res@.len() ==> (#[trigger] res@[i]) < self.entries@.len()
                    && self@.found()[i] == self.entries@[res@[i] as int]@,
    {
        let trimmed = strings::trim(self.filter.as_str());
        let wanted_text = strings::to_lowercase(trimmed.as_str());
        let ghost all = entry_models(self.entries@);
        let mut out: Vec<usize> = Vec::new();
        let mut i: usize = 0;
        proof {
            assert(all.take(0) =~= Seq::<EntryModel>::empty());
        }
        while i < self.entries.len()
            invariant
                i <= self.entries@.len(),
                all == entry_models(self.entries@),
                wanted_text@ == wanted(self.filter@),
                out@.len() == matching(all.take(i as int), self.filter@).len(),
                forall|k: int|
                    0 <= k < out@.len() ==> (#[trigger] out@[k]) < self.entries@.len() && matching(
                        all.take(i as int),
                        self.filter@,
                    )[k] == self.entries@[out@[k] as int]@,
            decreases self.entries@.len() - i,
        {
            proof {
                assert(all.take(i + 1).drop_last() =~= all.take(i as int));
                assert(all.take(i + 1).last() == self.entries@[i as int]@);
            }
            let lower = strings::to_lowercase(self.entries[i].name.as_str());
            if wanted_text.as_str().is_empty() || strings::contains_text(
                lower.as_str(),
                wanted_text.as_str(),
            ) {
                out.push(i);
            }
            i += 1;
        }
        proof {
            assert(all.take(i as int) =~= all);
        }
        out
    }

    fn row_of(&self, e: &Entry) -> (res: Row)
        ensures
            res@ == self@.row(e@),
    {
        let hovered: bool = match &self.hovered {
            Some(name) => strings::text_eq(name.as_str(), e.name.as_str()),
            None => false,
        };
        Row {
            name: e.name.clone(),
            target: join_remote(self.path.as_str(), e.name.as_str()),
            is_dir: e.is_dir,
            size: if e.is_dir {
                SizeLabel::Dash
            } else {
                SizeLabel::Bytes(e.size)
            },
            modified: e.modified.clone(),
            permissions: e.permissions.clone(),
            selected: self.selected.contains(e.name.as_str()),
            hovered,
            opens: e.is_dir && !self.loading,
        }
    }

    fn menu(&self) -> (res: Option<EntryMenu>)
        ensures
            self@.menu_is(res),
    {
        let name = match &self.context_entry {
            Some(name) => name,
            None => return None,
        };
        let position = match self.context_position {
            Some(position) => position,
            None => return None,
        };
        match find_entry(&self.entries, name.as_str()) {
            Some(i) => {
                proof {
                    assert(self@.entries[i as int] == self.entries@[i as int]@);
                }
                Some(
                    EntryMenu {
                        position,
                        target: join_remote(self.path.as_str(), name.as_str()),
                        opens: self.entries[i].is_dir,
                    },
                )
            },
            None => None,
        }
    }

    /// What the screen shows.
    pub fn shown(&self, i18n: &I18n) -> (res: Listing)
        requires
            self.wf(),
            self.pending_uploads@.len() < usize::MAX,
            self.pending_downloads@.len() < usize::MAX,
        ensures
            self@.shown_by(res, i18n.lang),
    {
        let found = self.found();
        let count: usize = if found.len() <= self.visible_limit {
            found.len()
        } else {
            self.visible_limit
        };
        let mut rows: Vec<Row> = Vec::new();
        let mut i: usize = 0;
        while i < count
            invariant
                i <= count <= found@.len(),
                rows@.len() == i,
                found@.len() == self@.found().len(),
                forall|k: int|
                    0 <= k < found@.len() ==> (#[trigger] found@[k]) < self.entries@.len()
                        && self@.found()[k] == self.entries@[found@[k] as int]@,
                forall|k: int|
                    0 <= k < i ==> (#[trigger] rows@[k])@ == self@.row(self@.found()[k]),
            decreases count - i,
        {
            let at: usize = found[i];
            rows.push(self.row_of(&self.entries[at]));
            i += 1;
        }
        proof {
            assert(row_models(rows@) =~= self@.rows());
        }
        let selected: usize = self.selected.len();
        let trimmed_filter = strings::trim(self.filter.as_str());
        let empty: Option<Text> = if self.loading || found.len() > 0 {
            None
        } else if trimmed_filter.as_str().is_empty() {
            Some(i18n.tr("sftp_empty"))
        } else {
            Some(i18n.tr("sftp_filter_empty"))
        };
        let more: Option<Text> = if count < found.len() {
            Some(
                i18n.trf2(
                    "sftp_visible_count",
                    strings::decimal_text(count as u64),
                    strings::decimal_text(found.len() as u64),
                ),
            )
        } else {
            None
        };
        let name = strings::trim(self.new_directory_name.as_str());
        Listing {
            title: i18n.trf1("sftp_title", self.host_name.clone()),
            download_label: if selected == 0 {
                i18n.tr("sftp_download")
            } else {
                i18n.trf1("sftp_download_count", strings::decimal_text(selected as u64))
            },
            can_download: selected > 0,
            can_move: !self.loading,
            path: self.path.clone(),
            has_parent: !strings::text_eq(self.path.as_str(), "/"),
            rows,
            empty,
            more,
            can_create: !name.as_str().is_empty(),
            drop_hint: if self.drag_hovered {
                Some(i18n.trf1("sftp_drop_upload", self.path.clone()))
            } else {
                None
            },
            uploading: queue_line(
                i18n,
                "sftp_uploading_items",
                self.pending_uploads.len(),
                self.upload_in_progress,
            ),
            downloading: queue_line(
                i18n,
                "sftp_downloading_items",
                self.pending_downloads.len(),
                self.download_in_progress,
            ),
            menu: self.menu(),
        }
    }
}

// ---------------------------------------------------------------------------
// Laws
// ---------------------------------------------------------------------------

/// A range of entries is selected the same way from either end.
pub proof fn law_range_has_no_direction(s: StateModel, a: Seq<char>, b: Seq<char>)
    ensures
        (StateModel { selection_anchor: Some(a), ..s }).ranged_to(b).selected == (StateModel {
            selection_anchor: Some(b),
            ..s
        }).ranged_to(a).selected,
{
}

/// A directory that was read shows again with the entries that were read, and
/// needs no reading for half a minute.
pub proof fn law_visited_directory_is_restored(
    s: StateModel,
    path: Seq<char>,
    entries: Seq<EntryModel>,
    then: u64,
    now: u64,
)
    requires
        cache_wf(s.cache),
    ensures
        ({
            let c = CachedModel { path, entries, fetched_at: then };
            let after = StateModel { cache: with_cached(s.cache, c), ..s };
            &&& after.restored(path, now) matches Some((shown, fresh)) && shown.path == path
                && shown.entries == entries && fresh == (now - then <= 30_000_000_000)
        }),
{
    let c = CachedModel { path, entries, fetched_at: then };
    lemma_with_cached_wf(s.cache, c);
    let cache = with_cached(s.cache, c);
    let last = cache.len() - 1;
    assert(cache[last] == c);
    assert(at_path(path)(cache[last]));
    assert forall|j: int| 0 <= j < last implies !at_path(path)(#[trigger] cache[j]) by {
        assert(cache[j].path != cache[last].path);
    }
    model::lemma_first_index_some(cache, at_path(path), last);
}

/// Reading a directory makes at most the oldest of the other visited ones give
/// way, and only where there is no room left.
pub proof fn law_other_directories_are_kept(cache: Seq<CachedModel>, c: CachedModel, i: int)
    requires
        cache_wf(cache),
        0 <= i < cache.len(),
        cache[i].path != c.path,
        i > 0 || cache.len() < DIRECTORY_CACHE_CAPACITY || cached_at(cache, c.path) is Some,
    ensures
        with_cached(cache, c).contains(cache[i]),
{
    model::lemma_first_index_any(cache, at_path(c.path));
    let kept = match cached_at(cache, c.path) {
        Some(at) => cache.remove(at),
        None => cache,
    };
    let at = match cached_at(cache, c.path) {
        Some(at) => at,
        None => cache.len() as int,
    };
    let k = if i < at {
        i
    } else {
        i - 1
    };
    if at < cache.len() {
        assert(at_path(c.path)(cache[at]));
        assert(i != at);
    }
    let all = kept.push(c);
    assert(all[k] == cache[i]);
    let after = with_cached(cache, c);
    let shift = all.len() - after.len();
    assert(after[k - shift] == cache[i]);
}

/// A name in a directory: behind a slash in the root, alone in the start
/// directory, and behind the path and one slash elsewhere, however many slashes
/// the path ends with.
pub proof fn law_joined_paths(base: Seq<char>, name: Seq<char>)
    ensures
        joined_path("/"@, name) == seq!['/'] + name,
        joined_path("."@, name) == name,
        base.len() > 0 && base != "/"@ && base != "."@ && base.last() != '/' ==> joined_path(
            base,
            name,
        ) == base + seq!['/'] + name,
        base.len() > 0 && base.last() != '/' && base != "."@ ==> joined_path(
            base.push('/'),
            name,
        ) == joined_path(base, name),
{
    reveal_strlit("/");
    reveal_strlit(".");
    assert("/"@ =~= seq!['/']);
    assert("."@ =~= seq!['.']);
    assert("/"@ != "."@) by {
        assert("/"@[0] != "."@[0]);
    }
    if base.len() > 0 && base.last() != '/' && base != "."@ {
        let longer = base.push('/');
        assert(longer.len() >= 2);
        assert(longer.drop_last() =~= base);
        assert(base != "/"@) by {
            if base == "/"@ {
                assert(base.last() == '/');
            }
        }
        assert(strings::without_end(longer, '/') == strings::without_end(base, '/'));
        assert(strings::without_end(base, '/') == base);
    }
}

/// The directory above: that of the root and of the start directory is itself,
/// and that of another path is what stands before its last slash.
pub proof fn law_parents(path: Seq<char>, at: int)
    ensures
        parent_path("/"@) == "/"@,
        parent_path("."@) == "."@,
        path != "."@ && path != "/"@ && !path.contains('/') ==> parent_path(path) == "."@,
        path != "."@ && path != "/"@ && last_slash(path, at) && at > 0 ==> parent_path(path)
            == path.take(at),
        path != "."@ && path != "/"@ && last_slash(path, 0) ==> parent_path(path) == "/"@,
{
    if last_slash(path, at) {
        assert(path.contains(path[at]));
        let other = choose|k: int| last_slash(path, k);
        assert(last_slash(path, other));
        if other < at {
            assert(path[at] != '/');
        }
        if at < other {
            assert(path[other] != '/');
        }
    }
    if last_slash(path, 0) {
        assert(path.contains(path[0]));
        let other = choose|k: int| last_slash(path, k);
        assert(last_slash(path, other));
        if other > 0 {
            assert(path[other] != '/');
        }
    }
}

/// The filter keeps, in order, the entries whose names hold what was typed, in
/// whatever case and without the white space around it, and keeps all of them
/// where nothing was typed.
pub proof fn law_filter(entries: Seq<EntryModel>, e: EntryModel, filter: Seq<char>)
    ensures
        matching(Seq::empty(), filter).len() == 0,
        ({
            let asked = strings::lowercase(strings::trimmed(filter));
            let kept = asked.len() == 0 || strings::has_part(strings::lowercase(e.name), asked);
            &&& kept ==> matching(entries.push(e), filter) == matching(entries, filter).push(e)
            &&& !kept ==> matching(entries.push(e), filter) == matching(entries, filter)
        }),
{
    assert(entries.push(e).drop_last() =~= entries);
}

/// A line shows its entry: the name, the whole path, the size of a file and a
/// dash for a directory, and whether it is selected. Only a directory opens,
/// and not while another one is being read.
pub proof fn law_lines_show_their_entries(s: StateModel, i: int)
    requires
        0 <= i < s.rows().len(),
    ensures
        ({
            let found = matching(s.entries, s.filter);
            let (e, row) = (found[i], s.rows()[i]);
            &&& s.rows().len() == (if found.len() <= s.visible_limit {
                found.len() as int
            } else {
                s.visible_limit as int
            })
            &&& row.name == e.name
            &&& row.target == joined_path(s.path, e.name)
            &&& row.is_dir == e.is_dir
            &&& e.is_dir ==> row.size is Dash
            &&& !e.is_dir ==> row.size == SizeLabel::Bytes(e.size)
            &&& row.modified == e.modified
            &&& row.permissions == e.permissions
            &&& row.selected == s.selected.contains(e.name)
            &&& row.hovered == (s.hovered == Some(e.name))
            &&& row.opens == (e.is_dir && !s.loading)
        }),
{
}

/// A range selects the entries from the one where it began to the other one,
/// both included, and keeps what was selected before; nothing else.
pub proof fn law_range_selects_what_lies_between(
    s: StateModel,
    a: int,
    b: int,
    name: Seq<char>,
)
    requires
        0 <= a <= b < s.entries.len(),
        s.selection_anchor == Some(s.entries[a].name),
        forall|i: int, j: int|
            0 <= i < j < s.entries.len() ==> (#[trigger] s.entries[i]).name != (
            #[trigger] s.entries[j]).name,
    ensures
        s.ranged_to(s.entries[b].name).selected.contains(name) <==> (s.selection_base.contains(
            name,
        ) || exists|i: int| a <= i <= b && (#[trigger] s.entries[i]).name == name),
{
    let (p, q) = (named(s.entries[a].name), named(s.entries[b].name));
    assert forall|j: int| 0 <= j < a implies !p(#[trigger] s.entries[j]) by {
        assert(s.entries[j].name != s.entries[a].name);
    }
    assert forall|j: int| 0 <= j < b implies !q(#[trigger] s.entries[j]) by {
        assert(s.entries[j].name != s.entries[b].name);
    }
    assert(p(s.entries[a]) && q(s.entries[b]));
    model::lemma_first_index_some(s.entries, p, a);
    model::lemma_first_index_some(s.entries, q, b);
    let after = s.ranged_to(s.entries[b].name).selected;
    if exists|i: int| a <= i <= b && (#[trigger] s.entries[i]).name == name {
        let i = choose|i: int| a <= i <= b && (#[trigger] s.entries[i]).name == name;
        assert(names_from(s.entries, a, b + 1).contains(name));
    }
}

/// A visited directory that shows again shows from its beginning, with nothing
/// selected and no menu.
pub proof fn law_restored_directory_is_fresh(s: StateModel, path: Seq<char>, now: u64)
    ensures
        s.restored(path, now) matches Some((after, _)) ==> {
            &&& after.path == path
            &&& after.selected == Set::<Seq<char>>::empty()
            &&& after.selection_anchor is None
            &&& after.context_entry is None
            &&& after.context_position is None
            &&& after.hovered is None
            &&& after.visible_limit == 200
            &&& after.host_id == s.host_id
            &&& after.cache == s.cache
        },
        s.unselected().selected == Set::<Seq<char>>::empty(),
        s.unselected().entries == s.entries,
        s.unselected().path == s.path,
{
}

/// As many transfers are told as wait, and the one that is going on.
pub proof fn law_transfers_are_counted(lang: Lang, key: Seq<char>, waiting: nat)
    ensures
        queue_text(lang, key, 0, false) is None,
        queue_text(lang, key, waiting, true) == Some(
            seq![
                SpanModel::Translated {
                    lang,
                    key,
                    args: seq![text::ArgModel::Plain(strings::decimal(waiting + 1))],
                },
            ],
        ),
        waiting > 0 ==> queue_text(lang, key, waiting, false) == Some(
            seq![
                SpanModel::Translated {
                    lang,
                    key,
                    args: seq![text::ArgModel::Plain(strings::decimal(waiting))],
                },
            ],
        ),
{
}

/// The menu belongs to the entry that it was opened for: it opens a directory
/// and copies the path of the entry in this directory. Without an entry, or
/// without a place for it, there is none.
pub proof fn law_menu_belongs_to_its_entry(s: StateModel, menu: Option<EntryMenu>, i: int)
    requires
        s.menu_is(menu),
    ensures
        s.context_entry is None || s.context_position is None ==> menu is None,
        s.context_entry is Some && s.context_position is Some && 0 <= i < s.entries.len()
            && s.entries[i].name == s.context_entry->0 && (forall|j: int|
            0 <= j < i ==> (#[trigger] s.entries[j]).name != s.context_entry->0) ==> (menu matches
            Some(m) && m.position == s.context_position->0 && m.target@ == joined_path(
            s.path,
            s.entries[i].name,
        ) && m.opens == s.entries[i].is_dir),
{
    if s.context_entry is Some && s.context_position is Some && 0 <= i < s.entries.len()
        && s.entries[i].name == s.context_entry->0 && (forall|j: int|
        0 <= j < i ==> (#[trigger] s.entries[j]).name != s.context_entry->0) {
        let p = named(s.context_entry->0);
        assert(model::first_at(s.entries, p, i));
        model::lemma_first_index_some(s.entries, p, i);
    }
}

/// An empty list says whether the directory or the search is why, unless it is
/// still being loaded; a cut list says how much of it shows.
pub proof fn law_lists_say_what_they_lack(s: StateModel, lang: Lang)
    ensures
        s.empty_text(lang) is Some <==> !s.loading && s.found().len() == 0,
        s.empty_text(lang) is Some && strings::trimmed(s.filter).len() == 0 ==> s.empty_text(lang)
            == Some(text::tr(lang, "sftp_empty"@)),
        s.empty_text(lang) is Some && strings::trimmed(s.filter).len() > 0 ==> s.empty_text(lang)
            == Some(text::tr(lang, "sftp_filter_empty"@)),
        s.more_text(lang) is Some <==> s.found().len() > s.visible_limit,
        s.more_text(lang) is Some ==> s.more_text(lang) == Some(
            seq![
                SpanModel::Translated {
                    lang,
                    key: "sftp_visible_count"@,
                    args: seq![
                        text::ArgModel::Plain(strings::decimal(s.visible_limit as nat)),
                        text::ArgModel::Plain(strings::decimal(s.found().len())),
                    ],
                },
            ],
        ),
{
}

/// The screen shows the directory that is open, lets selected entries be
/// downloaded, and leads up everywhere but at the root.
pub proof fn law_listing_shows_the_directory(s: StateModel, l: Listing, lang: Lang)
    requires
        s.shown_by(l, lang),
    ensures
        l.path@ == s.path,
        l.can_download <==> s.selected.len() > 0,
        l.has_parent <==> s.path != "/"@,
        l.can_move <==> !s.loading,
        l.can_create <==> strings::trimmed(s.new_directory_name).len() > 0,
        l.drop_hint is Some <==> s.drag_hovered,
        s.selected.len() > 0 ==> l.download_label@ == seq![
            SpanModel::Translated {
                lang,
                key: "sftp_download_count"@,
                args: seq![text::ArgModel::Plain(strings::decimal(s.selected.len()))],
            },
        ],
{
}

} // verus!
