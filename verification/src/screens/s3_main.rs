//! The main screen: the bar of tabs, the panel for connecting and the details
//! of a host.
use vstd::prelude::*;

use crate::model;
use crate::screens;
use crate::screens::{Tab, TabKind, TabKindModel, TabModel};
use crate::strings;
use crate::text;
use crate::text::{I18n, Lang, SpanModel, Text};

verus! {

/// A host of the vault.
#[derive(Debug, Clone, PartialEq)]
pub struct HostItem {
    pub id: String,
    pub name: String,
    pub host: String,
    pub user: String,
    pub port: u16,
    pub tags: Vec<String>,
    pub group: Option<String>,
    pub color: Option<String>,
    pub auth_kind: String,
    pub notes: Option<String>,
    pub agent_trust: String,
}

#[verifier::ext_equal]
pub struct HostModel {
    pub id: Seq<char>,
    pub name: Seq<char>,
    pub host: Seq<char>,
    pub user: Seq<char>,
    pub port: u16,
    pub tags: Seq<Seq<char>>,
    pub group: Option<Seq<char>>,
    pub color: Option<Seq<char>>,
    pub auth_kind: Seq<char>,
    pub notes: Option<Seq<char>>,
    pub agent_trust: Seq<char>,
}

impl View for HostItem {
    type V = HostModel;

    open spec fn view(&self) -> HostModel {
        HostModel {
            id: self.id@,
            name: self.name@,
            host: self.host@,
            user: self.user@,
            port: self.port,
            tags: strings::texts(self.tags@),
            group: strings::opt_text(self.group),
            color: strings::opt_text(self.color),
            auth_kind: self.auth_kind@,
            notes: strings::opt_text(self.notes),
            agent_trust: self.agent_trust@,
        }
    }
}

/// The hosts of a list.
pub open spec fn host_models(hosts: Seq<HostItem>) -> Seq<HostModel> {
    Seq::new(hosts.len(), |i: int| hosts[i]@)
}

/// The first host with an id.
pub open spec fn host_with(hosts: Seq<HostModel>, id: Seq<char>) -> Option<HostModel> {
    model::first_match(hosts, |h: HostModel| h.id == id)
}

/// The first host with an id.
pub fn find_host<'a>(hosts: &'a Vec<HostItem>, id: &str) -> (res: Option<&'a HostItem>)
    ensures
        match res {
            Some(host) => host_with(host_models(hosts@), id@) == Some(host@),
            None => host_with(host_models(hosts@), id@) == None::<HostModel>,
        },
{
    let ghost p = |h: HostModel| h.id == id@;
    let ghost all = host_models(hosts@);
    let mut i: usize = 0;
    while i < hosts.len()
        invariant
            i <= hosts@.len(),
            all == host_models(hosts@),
            p == (|h: HostModel| h.id == id@),
            forall|k: int| 0 <= k < i ==> !p(#[trigger] all[k]),
        decreases hosts@.len() - i,
    {
        if strings::text_eq(hosts[i].id.as_str(), id) {
            proof {
                assert(p(all[i as int]));
                model::lemma_first_index_some(all, p, i as int);
            }
            return Some(&hosts[i]);
        }
        proof {
            assert(!p(all[i as int]));
        }
        i += 1;
    }
    proof {
        model::lemma_first_index_none(all, p);
    }
    None
}

#[derive(Debug)]
pub struct State {
    /// The host whose credential shows, and the credential.
    pub revealed_credential: Option<(String, String)>,
    pub credential_copied: bool,
}

#[verifier::ext_equal]
pub struct StateModel {
    pub revealed_credential: Option<(Seq<char>, Seq<char>)>,
    pub credential_copied: bool,
}

impl View for State {
    type V = StateModel;

    open spec fn view(&self) -> StateModel {
        StateModel {
            revealed_credential: match self.revealed_credential {
                Some((host, credential)) => Some((host@, credential@)),
                None => None,
            },
            credential_copied: self.credential_copied,
        }
    }
}

impl StateModel {
    /// No credential shows.
    pub open spec fn hidden() -> StateModel {
        StateModel { revealed_credential: None, credential_copied: false }
    }
}

// ---------------------------------------------------------------------------
// Tab bar
// ---------------------------------------------------------------------------

/// The symbol of a tab or a button.
#[derive(Debug, Clone, Copy, PartialEq, Eq, Structural)]
pub enum Glyph {
    Server,
    Terminal,
    CirclePlus,
    Pencil,
    Settings,
    CircleCheck,
    CircleAlert,
    Refresh,
}

/// The symbol of a kind of tab.
pub open spec fn kind_glyph(kind: TabKindModel) -> Glyph {
    match kind {
        TabKindModel::Host { .. } => Glyph::Server,
        TabKindModel::Terminal { .. } => Glyph::Terminal,
        TabKindModel::AddHost => Glyph::CirclePlus,
        TabKindModel::EditHost { .. } => Glyph::Pencil,
        TabKindModel::Settings => Glyph::Settings,
    }
}

/// A tab as the bar shows it.
#[derive(Debug)]
pub struct TabChip {
    pub id: String,
    pub name: Text,
    pub glyph: Glyph,
    pub active: bool,
}

#[verifier::ext_equal]
pub struct ChipModel {
    pub id: Seq<char>,
    pub name: Seq<SpanModel>,
    pub glyph: Glyph,
    pub active: bool,
}

impl View for TabChip {
    type V = ChipModel;

    open spec fn view(&self) -> ChipModel {
        ChipModel { id: self.id@, name: self.name@, glyph: self.glyph, active: self.active }
    }
}

/// The chip of a tab.
pub open spec fn chip_of(tab: TabModel, active_tab_id: Seq<char>) -> ChipModel {
    ChipModel {
        id: tab.id,
        name: tab.name,
        glyph: kind_glyph(tab.kind),
        active: tab.id == active_tab_id,
    }
}

/// The bar of tabs.
#[derive(Debug)]
pub struct TabBar {
    pub chips: Vec<TabChip>,
    pub panel_active: bool,
    /// The number of approvals on the button for them; `None` without a button.
    pub approvals: Option<usize>,
    pub sync_glyph: Glyph,
    pub sync_active: bool,
}

/// The symbol of the button for syncing.
pub open spec fn sync_glyph_of(symbol: Seq<char>) -> Glyph {
    if symbol == "✓"@ {
        Glyph::CircleCheck
    } else if symbol == "▲"@ || symbol == "✗"@ {
        Glyph::CircleAlert
    } else {
        Glyph::Refresh
    }
}

/// A bar shows the tabs and the state of syncing as they are.
pub open spec fn shows_tabs(
    bar: TabBar,
    tabs: Seq<TabModel>,
    active_tab_id: Seq<char>,
    panel_active: bool,
    approvals: usize,
    sync_symbol: Seq<char>,
) -> bool {
    &&& bar.chips@.len() == tabs.len()
    &&& forall|i: int|
        0 <= i < tabs.len() ==> (#[trigger] bar.chips@[i])@ == chip_of(tabs[i], active_tab_id)
    &&& bar.panel_active == panel_active
    &&& bar.approvals == (if approvals > 0 {
        Some(approvals)
    } else {
        None
    })
    &&& bar.sync_glyph == sync_glyph_of(sync_symbol)
    &&& bar.sync_active == (sync_symbol == "⟳"@ || sync_symbol == "▲"@)
}

// ---------------------------------------------------------------------------
// Connect panel
// ---------------------------------------------------------------------------

/// A host in the panel for connecting.
#[derive(Debug)]
pub struct PanelHost {
    pub id: String,
    pub name: String,
    /// The user and the host.
    pub address: String,
}

#[verifier::ext_equal]
pub struct PanelHostModel {
    pub id: Seq<char>,
    pub name: Seq<char>,
    pub address: Seq<char>,
}

impl View for PanelHost {
    type V = PanelHostModel;

    open spec fn view(&self) -> PanelHostModel {
        PanelHostModel { id: self.id@, name: self.name@, address: self.address@ }
    }
}

/// The entries of a list.
pub open spec fn panel_models(list: Seq<PanelHost>) -> Seq<PanelHostModel> {
    Seq::new(list.len(), |i: int| list[i]@)
}

/// The entry of a host.
pub open spec fn panel_host(h: HostModel) -> PanelHostModel {
    PanelHostModel { id: h.id, name: h.name, address: h.user + "@"@ + h.host }
}

/// The panel for connecting: the hosts connected to last, and those that a
/// search finds.
#[derive(Debug)]
pub struct ConnectPanel {
    pub recent: Vec<PanelHost>,
    pub hosts: Vec<PanelHost>,
}

/// The entries of the hosts connected to last, as far as they still exist.
pub open spec fn recent_hosts(hosts: Seq<HostModel>, recent: Seq<Seq<char>>) -> Seq<PanelHostModel>
    decreases recent.len(),
{
    if recent.len() == 0 {
        Seq::empty()
    } else {
        let before = recent_hosts(hosts, recent.drop_last());
        match host_with(hosts, recent.last()) {
            Some(h) => before.push(panel_host(h)),
            None => before,
        }
    }
}

/// The search finds the host: its name, its address or its user holds the text
/// in whatever case.
pub open spec fn found_by(h: HostModel, search: Seq<char>) -> bool {
    let wanted = strings::lowercase(search);
    ||| search.len() == 0
    ||| strings::has_part(strings::lowercase(h.name), wanted)
    ||| strings::has_part(strings::lowercase(h.host), wanted)
    ||| strings::has_part(strings::lowercase(h.user), wanted)
}

/// The entries of the hosts that a search finds.
pub open spec fn found_hosts(hosts: Seq<HostModel>, search: Seq<char>) -> Seq<PanelHostModel>
    decreases hosts.len(),
{
    if hosts.len() == 0 {
        Seq::empty()
    } else {
        let before = found_hosts(hosts.drop_last(), search);
        if found_by(hosts.last(), search) {
            before.push(panel_host(hosts.last()))
        } else {
            before
        }
    }
}

fn entry_of(host: &HostItem) -> (res: PanelHost)
    ensures
        res@ == panel_host(host@),
{
    PanelHost {
        id: host.id.clone(),
        name: host.name.clone(),
        address: strings::concat3(host.user.as_str(), "@", host.host.as_str()),
    }
}

fn push_entry(list: &mut Vec<PanelHost>, entry: PanelHost)
    ensures
        panel_models(final(list)@) == panel_models(old(list)@).push(entry@),
{
    let ghost before = list@;
    list.push(entry);
    proof {
        assert(panel_models(list@) =~= panel_models(before).push(entry@));
    }
}

// ---------------------------------------------------------------------------
// Host detail
// ---------------------------------------------------------------------------

/// The details of a host.
#[derive(Debug)]
pub struct HostDetail {
    pub name: String,
    /// The user, the host and the port.
    pub address: String,
    pub auth_kind: Text,
    pub group: String,
    pub tags: String,
    pub trust: Text,
    /// The credential, where it is that of this host that shows.
    pub credential: Option<String>,
    pub copied: bool,
    pub notes: Option<String>,
}

/// The text where there is nothing to show.
pub open spec fn dash() -> Seq<char> {
    "—"@
}

/// The group of a host, or a dash.
pub open spec fn group_text(h: HostModel) -> Seq<char> {
    match h.group {
        Some(group) => if group.len() == 0 {
            dash()
        } else {
            group
        },
        None => dash(),
    }
}

/// The tags of a host, or a dash.
pub open spec fn tags_text(h: HostModel) -> Seq<char> {
    if h.tags.len() == 0 {
        dash()
    } else {
        strings::joined(h.tags, " · "@)
    }
}

/// The key of the name of how far agents are trusted on a host.
pub open spec fn trust_key(trust: Seq<char>) -> Seq<char> {
    if trust == "readonly"@ {
        "agent_trust_readonly"@
    } else if trust == "trusted"@ {
        "agent_trust_trusted"@
    } else {
        "agent_trust_ask"@
    }
}

/// The notes of a host, where there are any.
pub open spec fn notes_text(h: HostModel) -> Option<Seq<char>> {
    match h.notes {
        Some(notes) => if notes.len() == 0 {
            None
        } else {
            Some(notes)
        },
        None => None,
    }
}

impl StateModel {
    /// The credential that shows in the details of a host: only its own.
    pub open spec fn credential_for(self, host_id: Seq<char>) -> Option<Seq<char>> {
        match self.revealed_credential {
            Some((owner, credential)) => if owner == host_id {
                Some(credential)
            } else {
                None
            },
            None => None,
        }
    }
}

/// A detail shows the host as it is.
pub open spec fn shows_host(d: HostDetail, h: HostModel, s: StateModel, lang: Lang) -> bool {
    &&& d.name@ == h.name
    &&& d.address@ == h.user + "@"@ + h.host + ":"@ + strings::decimal(h.port as nat)
    &&& d.auth_kind@ == text::trf1(lang, "main_auth_kind"@, h.auth_kind)
    &&& d.group@ == group_text(h)
    &&& d.tags@ == tags_text(h)
    &&& d.trust@ == text::tr(lang, trust_key(h.agent_trust))
    &&& strings::opt_text(d.credential) == s.credential_for(h.id)
    &&& d.copied == s.credential_copied
    &&& strings::opt_text(d.notes) == notes_text(h)
}

impl State {
    /// The bar of tabs.
    pub fn view_tab_bar(
        tabs: &Vec<Tab>,
        active_tab_id: &str,
        show_connect_panel: bool,
        agent_approval_count: usize,
        sync_symbol: &str,
    ) -> (res: TabBar)
        ensures
            shows_tabs(
                res,
                screens::tab_models(tabs@),
                active_tab_id@,
                show_connect_panel,
                agent_approval_count,
                sync_symbol@,
            ),
    {
        let mut chips: Vec<TabChip> = Vec::new();
        let mut i: usize = 0;
        while i < tabs.len()
            invariant
                i <= tabs@.len(),
                chips@.len() == i,
                forall|k: int|
                    0 <= k < i ==> (#[trigger] chips@[k])@ == chip_of(tabs@[k]@, active_tab_id@),
            decreases tabs@.len() - i,
        {
            let tab = &tabs[i];
            let glyph = match tab.kind {
                TabKind::Host { .. } => Glyph::Server,
                TabKind::Terminal { .. } => Glyph::Terminal,
                TabKind::AddHost => Glyph::CirclePlus,
                TabKind::EditHost { .. } => Glyph::Pencil,
                TabKind::Settings => Glyph::Settings,
            };
            chips.push(
                TabChip {
                    id: tab.id.clone(),
                    name: tab.name.clone(),
                    glyph,
                    active: strings::text_eq(tab.id.as_str(), active_tab_id),
                },
            );
            i += 1;
        }
        let sync_glyph = if strings::text_eq(sync_symbol, "✓") {
            Glyph::CircleCheck
        } else if strings::text_eq(sync_symbol, "▲") || strings::text_eq(sync_symbol, "✗") {
            Glyph::CircleAlert
        } else {
            Glyph::Refresh
        };
        TabBar {
            chips,
            panel_active: show_connect_panel,
            approvals: if agent_approval_count > 0 {
                Some(agent_approval_count)
            } else {
                None
            },
            sync_glyph,
            sync_active: strings::text_eq(sync_symbol, "⟳") || strings::text_eq(sync_symbol, "▲"),
        }
    }

    /// The panel for connecting.
    pub fn view_connect_panel(hosts: &Vec<HostItem>, recent_ids: &Vec<String>, search: &str) -> (res:
        ConnectPanel)
        ensures
            panel_models(res.recent@) == recent_hosts(
                host_models(hosts@),
                strings::texts(recent_ids@),
            ),
            panel_models(res.hosts@) == found_hosts(host_models(hosts@), search@),
    {
        let ghost all = host_models(hosts@);
        let ghost ids = strings::texts(recent_ids@);
        let mut recent: Vec<PanelHost> = Vec::new();
        let mut i: usize = 0;
        proof {
            assert(panel_models(recent@) =~= recent_hosts(all, ids.take(0)));
        }
        while i < recent_ids.len()
            invariant
                i <= recent_ids@.len(),
                all == host_models(hosts@),
                ids == strings::texts(recent_ids@),
                panel_models(recent@) == recent_hosts(all, ids.take(i as int)),
            decreases recent_ids@.len() - i,
        {
            proof {
                assert(ids.take(i + 1).drop_last() =~= ids.take(i as int));
            }
            if let Some(host) = find_host(hosts, recent_ids[i].as_str()) {
                push_entry(&mut recent, entry_of(host));
            }
            i += 1;
        }
        let wanted = strings::to_lowercase(search);
        let mut found: Vec<PanelHost> = Vec::new();
        let mut j: usize = 0;
        proof {
            assert(ids.take(i as int) =~= ids);
            assert(panel_models(found@) =~= found_hosts(all.take(0), search@));
        }
        while j < hosts.len()
            invariant
                j <= hosts@.len(),
                all == host_models(hosts@),
                wanted@ == strings::lowercase(search@),
                panel_models(found@) == found_hosts(all.take(j as int), search@),
            decreases hosts@.len() - j,
        {
            proof {
                assert(all.take(j + 1).drop_last() =~= all.take(j as int));
            }
            let host = &hosts[j];
            if search.is_empty() || holds_lower(host.name.as_str(), wanted.as_str())
                || holds_lower(host.host.as_str(), wanted.as_str()) || holds_lower(
                host.user.as_str(),
                wanted.as_str(),
            ) {
                push_entry(&mut found, entry_of(host));
            }
            j += 1;
        }
        proof {
            assert(all.take(j as int) =~= all);
        }
        ConnectPanel { recent, hosts: found }
    }

    /// The details of a host; `None` where there is no such host.
    pub fn view_host_detail(&self, hosts: &Vec<HostItem>, host_id: &str, i18n: &I18n) -> (res:
        Option<HostDetail>)
        ensures
            match res {
                Some(detail) => host_with(host_models(hosts@), host_id@) is Some && shows_host(
                    detail,
                    host_with(host_models(hosts@), host_id@)->0,
                    self@,
                    i18n.lang,
                ),
                None => host_with(host_models(hosts@), host_id@) is None,
            },
    {
        let host = match find_host(hosts, host_id) {
            Some(host) => host,
            None => return None,
        };
        let mut address = strings::concat3(host.user.as_str(), "@", host.host.as_str());
        address.append(":");
        let port = strings::decimal_text(host.port as u64);
        address.append(port.as_str());
        let group = match &host.group {
            Some(group) => if group.as_str().is_empty() {
                "—".to_string()
            } else {
                group.clone()
            },
            None => "—".to_string(),
        };
        let tags = if host.tags.len() == 0 {
            "—".to_string()
        } else {
            strings::join(&host.tags, " · ")
        };
        let trust = if strings::text_eq(host.agent_trust.as_str(), "readonly") {
            i18n.tr("agent_trust_readonly")
        } else if strings::text_eq(host.agent_trust.as_str(), "trusted") {
            i18n.tr("agent_trust_trusted")
        } else {
            i18n.tr("agent_trust_ask")
        };
        let credential: Option<String> = match &self.revealed_credential {
            Some((owner, credential)) => if strings::text_eq(owner.as_str(), host.id.as_str()) {
                Some(credential.clone())
            } else {
                None
            },
            None => None,
        };
        let notes: Option<String> = match &host.notes {
            Some(notes) => if notes.as_str().is_empty() {
                None
            } else {
                Some(notes.clone())
            },
            None => None,
        };
        Some(
            HostDetail {
                name: host.name.clone(),
                address,
                auth_kind: i18n.trf1("main_auth_kind", host.auth_kind.clone()),
                group,
                tags,
                trust,
                credential,
                copied: self.credential_copied,
                notes,
            },
        )
    }
}

/// Whether a text holds another one that is in lower case, in whatever case.
fn holds_lower(text: &str, wanted: &str) -> (res: bool)
    ensures
        res == strings::has_part(strings::lowercase(text@), wanted@),
{
    let lower = strings::to_lowercase(text);
    strings::contains_text(lower.as_str(), wanted)
}

/// The details of a host never show the credential of another one.
pub proof fn law_credential_stays_with_its_host(
    s: StateModel,
    host_id: Seq<char>,
    owner: Seq<char>,
    credential: Seq<char>,
)
    requires
        s.revealed_credential == Some((owner, credential)),
        owner != host_id,
    ensures
        s.credential_for(host_id) == None::<Seq<char>>,
        s.credential_for(owner) == Some(credential),
{
}

/// A search finds, in order, the hosts whose name, address or user holds what
/// was typed, in whatever case, and all of them where nothing was typed. Each
/// shows by its name and its address.
pub proof fn law_search_finds_hosts(hosts: Seq<HostModel>, h: HostModel, search: Seq<char>)
    ensures
        found_hosts(Seq::empty(), search).len() == 0,
        ({
            let asked = strings::lowercase(search);
            let found = search.len() == 0 || strings::has_part(strings::lowercase(h.name), asked)
                || strings::has_part(strings::lowercase(h.host), asked) || strings::has_part(
                strings::lowercase(h.user),
                asked,
            );
            let entry = PanelHostModel { id: h.id, name: h.name, address: h.user + "@"@ + h.host };
            &&& found ==> found_hosts(hosts.push(h), search) == found_hosts(hosts, search).push(
                entry,
            )
            &&& !found ==> found_hosts(hosts.push(h), search) == found_hosts(hosts, search)
        }),
{
    assert(hosts.push(h).drop_last() =~= hosts);
}

/// The hosts connected to last show in their order, as far as they still exist.
pub proof fn law_recent_hosts_show(
    hosts: Seq<HostModel>,
    recent: Seq<Seq<char>>,
    id: Seq<char>,
    i: int,
)
    ensures
        recent_hosts(hosts, Seq::empty()).len() == 0,
        0 <= i < hosts.len() && hosts[i].id == id && (forall|j: int|
            0 <= j < i ==> (#[trigger] hosts[j]).id != id) ==> recent_hosts(hosts, recent.push(id))
            == recent_hosts(hosts, recent).push(
            PanelHostModel {
                id,
                name: hosts[i].name,
                address: hosts[i].user + "@"@ + hosts[i].host,
            },
        ),
        (forall|j: int| 0 <= j < hosts.len() ==> (#[trigger] hosts[j]).id != id) ==> recent_hosts(
            hosts,
            recent.push(id),
        ) == recent_hosts(hosts, recent),
{
    assert(recent.push(id).drop_last() =~= recent);
    let p = |h: HostModel| h.id == id;
    if 0 <= i < hosts.len() && hosts[i].id == id && (forall|j: int|
        0 <= j < i ==> (#[trigger] hosts[j]).id != id) {
        assert(model::first_at(hosts, p, i));
        model::lemma_first_index_some(hosts, p, i);
    }
    if forall|j: int| 0 <= j < hosts.len() ==> (#[trigger] hosts[j]).id != id {
        assert forall|j: int| 0 <= j < hosts.len() implies !p(#[trigger] hosts[j]) by {}
        model::lemma_first_index_none(hosts, p);
    }
}

/// A tab shows by its name and the symbol of its kind, and exactly the one with
/// the active id as active.
pub proof fn law_chips_show_their_tabs(tab: TabModel, active: Seq<char>)
    ensures
        ({
            let chip = chip_of(tab, active);
            &&& chip.id == tab.id
            &&& chip.name == tab.name
            &&& chip.active <==> tab.id == active
            &&& tab.kind is Host ==> chip.glyph == Glyph::Server
            &&& tab.kind is Terminal ==> chip.glyph == Glyph::Terminal
            &&& tab.kind is AddHost ==> chip.glyph == Glyph::CirclePlus
            &&& tab.kind is EditHost ==> chip.glyph == Glyph::Pencil
            &&& tab.kind is Settings ==> chip.glyph == Glyph::Settings
        }),
{
}

/// The button for syncing tells the state: done, in need of attention, or
/// neither.
pub proof fn law_sync_button()
    ensures
        sync_glyph_of("✓"@) == Glyph::CircleCheck,
        sync_glyph_of("▲"@) == Glyph::CircleAlert,
        sync_glyph_of("✗"@) == Glyph::CircleAlert,
        sync_glyph_of("⟳"@) == Glyph::Refresh,
        sync_glyph_of("—"@) == Glyph::Refresh,
{
    reveal_strlit("✓");
    reveal_strlit("▲");
    reveal_strlit("✗");
    reveal_strlit("⟳");
    reveal_strlit("—");
    assert("✓"@[0] == '✓' && "▲"@[0] == '▲' && "✗"@[0] == '✗');
    assert("⟳"@[0] == '⟳' && "—"@[0] == '—');
}

/// The details of a host show what it has, and a dash where it has no group or
/// no tags; how far agents are trusted is told by its own word, and they have
/// to ask where it is another one.
pub proof fn law_details_show_the_host(h: HostModel)
    ensures
        h.group is Some && h.group->0.len() > 0 ==> group_text(h) == h.group->0,
        h.group is None || h.group->0.len() == 0 ==> group_text(h) == "—"@,
        h.tags.len() > 0 ==> tags_text(h) == strings::joined(h.tags, " · "@),
        h.tags.len() == 0 ==> tags_text(h) == "—"@,
        h.notes is Some && h.notes->0.len() > 0 ==> notes_text(h) == h.notes,
        h.notes is None || h.notes->0.len() == 0 ==> notes_text(h) is None,
        trust_key("readonly"@) == "agent_trust_readonly"@,
        trust_key("trusted"@) == "agent_trust_trusted"@,
        trust_key("ask"@) == "agent_trust_ask"@,
        trust_key(Seq::empty()) == "agent_trust_ask"@,
{
    reveal_strlit("readonly");
    reveal_strlit("trusted");
    reveal_strlit("ask");
    assert("readonly"@.len() == 8 && "trusted"@.len() == 7 && "ask"@.len() == 3);
}

/// The details of a host name it, say where it is reached, and show a credential
/// only where it is that of this host.
pub proof fn law_details_belong_to_the_host(
    d: HostDetail,
    h: HostModel,
    s: StateModel,
    lang: Lang,
    owner: Seq<char>,
    credential: Seq<char>,
)
    requires
        shows_host(d, h, s, lang),
    ensures
        d.name@ == h.name,
        d.address@ == h.user + "@"@ + h.host + ":"@ + strings::decimal(h.port as nat),
        s.revealed_credential is None ==> d.credential is None,
        s.revealed_credential == Some((owner, credential)) && owner == h.id
            ==> strings::opt_text(d.credential) == Some(credential),
        s.revealed_credential == Some((owner, credential)) && owner != h.id ==> d.credential
            is None,
        d.copied == s.credential_copied,
{
}

/// The bar shows every tab in its place, the number of approvals where any wait,
/// and that syncing is under way or needs attention.
pub proof fn law_bar_shows_every_tab(
    bar: TabBar,
    tabs: Seq<TabModel>,
    active: Seq<char>,
    panel: bool,
    approvals: usize,
    symbol: Seq<char>,
    i: int,
)
    requires
        shows_tabs(bar, tabs, active, panel, approvals, symbol),
    ensures
        bar.chips@.len() == tabs.len(),
        0 <= i < tabs.len() ==> bar.chips@[i]@.id == tabs[i].id && bar.chips@[i]@.name
            == tabs[i].name && (bar.chips@[i]@.active <==> tabs[i].id == active),
        bar.panel_active == panel,
        approvals == 0 ==> bar.approvals is None,
        approvals > 0 ==> bar.approvals == Some(approvals),
        symbol == "⟳"@ || symbol == "▲"@ <==> bar.sync_active,
{
    if 0 <= i < tabs.len() {
        assert(bar.chips@[i]@ == chip_of(tabs[i], active));
    }
}

} // verus!
