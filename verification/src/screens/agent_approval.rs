//! Actions of agents that wait for an approval.
use vstd::prelude::*;

use crate::model;
use crate::screens::s3_main;
use crate::screens::s3_main::{HostItem, HostModel};
use crate::strings;
use crate::text;
use crate::text::{I18n, Lang, SpanModel, Text};

verus! {

/// An action that waits for an approval. Times are seconds.
#[derive(Debug)]
pub struct Approval {
    pub approval_id: String,
    pub session_id: String,
    pub host_id: Option<String>,
    pub command: String,
    pub matched_rules: Vec<String>,
    pub reasons: Vec<String>,
    pub expires_at: i64,
}

#[verifier::ext_equal]
pub struct ApprovalModel {
    pub approval_id: Seq<char>,
    pub session_id: Seq<char>,
    pub host_id: Option<Seq<char>>,
    pub command: Seq<char>,
    pub matched_rules: Seq<Seq<char>>,
    pub reasons: Seq<Seq<char>>,
    pub expires_at: i64,
}

impl View for Approval {
    type V = ApprovalModel;

    open spec fn view(&self) -> ApprovalModel {
        ApprovalModel {
            approval_id: self.approval_id@,
            session_id: self.session_id@,
            host_id: strings::opt_text(self.host_id),
            command: self.command@,
            matched_rules: strings::texts(self.matched_rules@),
            reasons: strings::texts(self.reasons@),
            expires_at: self.expires_at,
        }
    }
}

/// The approvals of a list.
pub open spec fn approval_models(list: Seq<Approval>) -> Seq<ApprovalModel> {
    Seq::new(list.len(), |i: int| list[i]@)
}

/// Approvals by id.
pub open spec fn with_id(id: Seq<char>) -> spec_fn(ApprovalModel) -> bool {
    |a: ApprovalModel| a.approval_id == id
}

/// The one that is selected: the first one where none is.
pub open spec fn selected_at(list: Seq<ApprovalModel>, id: Option<Seq<char>>) -> int {
    match id {
        Some(id) => match model::first_index(list, with_id(id)) {
            Some(i) => i,
            None => 0,
        },
        None => 0,
    }
}

/// The seconds that are left, within the range of their number.
pub open spec fn remaining(expires_at: i64, now: i64) -> int {
    let left = expires_at - now;
    if left < i64::MIN {
        i64::MIN as int
    } else if left > i64::MAX {
        i64::MAX as int
    } else {
        left
    }
}

/// The start of a command, cut after 24 characters.
pub open spec fn preview_of(command: Seq<char>) -> Seq<char> {
    if command.len() > 24 {
        command.take(24).push('…')
    } else {
        command
    }
}

/// The key of the name of a rule, where it has one.
pub open spec fn rule_key(rule: Seq<char>) -> Option<Seq<char>> {
    if rule == "recursive_delete"@ {
        Some("agent_rule_recursive_delete"@)
    } else if rule == "raw_disk_write"@ {
        Some("agent_rule_raw_disk_write"@)
    } else if rule == "format_filesystem"@ {
        Some("agent_rule_format_filesystem"@)
    } else if rule == "power_control"@ {
        Some("agent_rule_power_control"@)
    } else if rule == "delete_user"@ {
        Some("agent_rule_delete_user"@)
    } else if rule == "flush_firewall"@ {
        Some("agent_rule_flush_firewall"@)
    } else if rule == "disable_firewall"@ {
        Some("agent_rule_disable_firewall"@)
    } else if rule == "disable_service"@ {
        Some("agent_rule_disable_service"@)
    } else if rule == "delete_cluster_resource"@ {
        Some("agent_rule_delete_cluster_resource"@)
    } else if rule == "docker_prune"@ {
        Some("agent_rule_docker_prune"@)
    } else if rule == "drop_database"@ {
        Some("agent_rule_drop_database"@)
    } else if rule == "root_world_writable"@ {
        Some("agent_rule_root_world_writable"@)
    } else if rule == "fork_bomb"@ {
        Some("agent_rule_fork_bomb"@)
    } else if rule == "account_file_write"@ {
        Some("agent_rule_account_file_write"@)
    } else {
        None
    }
}

/// The name of a rule: the rule itself where it has no other.
pub open spec fn rule_text(lang: Lang, rule: Seq<char>) -> Seq<SpanModel> {
    match rule_key(rule) {
        Some(key) => text::tr(lang, key),
        None => text::plain(rule),
    }
}

/// The names of rules, with a dot between them.
pub open spec fn rules_text(lang: Lang, rules: Seq<Seq<char>>) -> Seq<SpanModel>
    decreases rules.len(),
{
    if rules.len() == 0 {
        Seq::empty()
    } else if rules.len() == 1 {
        rule_text(lang, rules[0])
    } else {
        rules_text(lang, rules.drop_last()) + text::plain(" · "@) + rule_text(lang, rules.last())
    }
}

impl ApprovalModel {
    /// Where the action is to run: the name of its host, or this machine.
    pub open spec fn target(self, hosts: Seq<HostModel>, lang: Lang) -> Seq<SpanModel> {
        match self.host_id {
            Some(id) => match s3_main::host_with(hosts, id) {
                Some(h) => text::plain(h.name),
                None => text::tr(lang, "agent_approval_local_terminal"@),
            },
            None => text::tr(lang, "agent_approval_local_terminal"@),
        }
    }

    /// Why the action needs an approval: the rules that it matches, or else the
    /// reasons that are given.
    pub open spec fn why(self, lang: Lang) -> Seq<SpanModel> {
        if self.matched_rules.len() > 0 {
            rules_text(lang, self.matched_rules)
        } else if self.reasons.len() > 0 {
            text::plain(strings::joined(self.reasons, " · "@))
        } else {
            text::tr(lang, "agent_approval_reason_unknown"@)
        }
    }
}

/// An entry of the list.
#[derive(Debug)]
pub struct Item {
    pub approval_id: String,
    pub target: Text,
    pub preview: String,
    pub selected: bool,
}

/// The action that is selected.
#[derive(Debug)]
pub struct Detail {
    pub approval_id: String,
    pub target: Text,
    pub countdown: Text,
    pub expired: bool,
    pub session: Text,
    pub command: String,
    pub reasons: Text,
    pub approve: Text,
    /// It can be approved or denied now.
    pub can_decide: bool,
}

/// The panel. Without anything that waits, there is no detail but a line.
#[derive(Debug)]
pub struct Panel {
    pub count: Text,
    pub items: Vec<Item>,
    pub detail: Option<Detail>,
    pub line: Option<Text>,
}

/// The entry shows the approval.
pub open spec fn shows_item(
    item: Item,
    a: ApprovalModel,
    selected: ApprovalModel,
    hosts: Seq<HostModel>,
    lang: Lang,
) -> bool {
    &&& item.approval_id@ == a.approval_id
    &&& item.target@ == a.target(hosts, lang)
    &&& item.preview@ == preview_of(a.command)
    &&& item.selected == (a.approval_id == selected.approval_id)
}

/// The detail shows the approval. While one is being decided, none can be, nor
/// once its time is up.
pub open spec fn shows_detail(
    d: Detail,
    a: ApprovalModel,
    busy: Option<Seq<char>>,
    now: i64,
    hosts: Seq<HostModel>,
    lang: Lang,
) -> bool {
    let left = remaining(a.expires_at, now);
    &&& d.approval_id@ == a.approval_id
    &&& d.target@ == a.target(hosts, lang)
    &&& d.expired == (left == 0)
    &&& d.countdown@ == (if left == 0 {
        text::tr(lang, "agent_approval_expired"@)
    } else {
        text::trf1(lang, "agent_approval_expires_in"@, strings::signed_decimal(left))
    })
    &&& d.session@ == text::trf1(lang, "agent_approval_session"@, a.session_id)
    &&& d.command@ == a.command
    &&& d.reasons@ == a.why(lang)
    &&& d.approve@ == text::tr(
        lang,
        if busy == Some(a.approval_id) {
            "agent_approval_processing"@
        } else {
            "agent_approval_approve_once"@
        },
    )
    &&& d.can_decide == (busy is None && left != 0)
}

/// Where an action is to run.
pub fn target_label(approval: &Approval, hosts: &Vec<HostItem>, i18n: &I18n) -> (res: Text)
    ensures
        res@ == approval@.target(s3_main::host_models(hosts@), i18n.lang),
{
    if let Some(id) = &approval.host_id {
        if let Some(host) = s3_main::find_host(hosts, id.as_str()) {
            return Text::plain(host.name.clone());
        }
    }
    i18n.tr("agent_approval_local_terminal")
}

/// The start of a command.
pub fn single_line_preview(command: &str) -> (res: String)
    ensures
        res@ == preview_of(command@),
{
    let chars = strings::chars_of(command);
    if chars.len() > 24 {
        let mut out = strings::string_of(&chars, 0, 24);
        out.push('…');
        proof {
            assert(out@ =~= preview_of(command@));
        }
        out
    } else {
        command.to_string()
    }
}

/// The name of a rule.
pub fn localized_rule(rule: &str, i18n: &I18n) -> (res: Text)
    ensures
        res@ == rule_text(i18n.lang, rule@),
{
    if strings::text_eq(rule, "recursive_delete") {
        i18n.tr("agent_rule_recursive_delete")
    } else if strings::text_eq(rule, "raw_disk_write") {
        i18n.tr("agent_rule_raw_disk_write")
    } else if strings::text_eq(rule, "format_filesystem") {
        i18n.tr("agent_rule_format_filesystem")
    } else if strings::text_eq(rule, "power_control") {
        i18n.tr("agent_rule_power_control")
    } else if strings::text_eq(rule, "delete_user") {
        i18n.tr("agent_rule_delete_user")
    } else if strings::text_eq(rule, "flush_firewall") {
        i18n.tr("agent_rule_flush_firewall")
    } else if strings::text_eq(rule, "disable_firewall") {
        i18n.tr("agent_rule_disable_firewall")
    } else if strings::text_eq(rule, "disable_service") {
        i18n.tr("agent_rule_disable_service")
    } else if strings::text_eq(rule, "delete_cluster_resource") {
        i18n.tr("agent_rule_delete_cluster_resource")
    } else if strings::text_eq(rule, "docker_prune") {
        i18n.tr("agent_rule_docker_prune")
    } else if strings::text_eq(rule, "drop_database") {
        i18n.tr("agent_rule_drop_database")
    } else if strings::text_eq(rule, "root_world_writable") {
        i18n.tr("agent_rule_root_world_writable")
    } else if strings::text_eq(rule, "fork_bomb") {
        i18n.tr("agent_rule_fork_bomb")
    } else if strings::text_eq(rule, "account_file_write") {
        i18n.tr("agent_rule_account_file_write")
    } else {
        Text::plain(rule.to_string())
    }
}

fn rules_line(rules: &Vec<String>, i18n: &I18n) -> (res: Text)
    ensures
        res@ == rules_text(i18n.lang, strings::texts(rules@)),
{
    let ghost all = strings::texts(rules@);
    let mut out = Text::empty();
    let mut i: usize = 0;
    proof {
        assert(all.take(0) =~= Seq::<Seq<char>>::empty());
    }
    while i < rules.len()
        invariant
            i <= rules@.len(),
            all == strings::texts(rules@),
            out@ == rules_text(i18n.lang, all.take(i as int)),
        decreases rules@.len() - i,
    {
        proof {
            assert(all.take(i + 1).drop_last() =~= all.take(i as int));
            assert(all.take(i + 1).last() == rules@[i as int]@);
        }
        if i > 0 {
            out.push(Text::plain(" · ".to_string()));
        }
        let ghost before = out@;
        out.push(localized_rule(rules[i].as_str(), i18n));
        proof {
            if i == 0 {
                assert(before =~= Seq::<SpanModel>::empty());
                assert(out@ =~= rule_text(i18n.lang, all[0]));
                assert(all.take(1)[0] == all[0]);
            }
        }
        i += 1;
    }
    proof {
        assert(all.take(i as int) =~= all);
    }
    out
}

fn why(approval: &Approval, i18n: &I18n) -> (res: Text)
    ensures
        res@ == approval@.why(i18n.lang),
{
    if approval.matched_rules.len() > 0 {
        rules_line(&approval.matched_rules, i18n)
    } else if approval.reasons.len() > 0 {
        Text::plain(strings::join(&approval.reasons, " · "))
    } else {
        i18n.tr("agent_approval_reason_unknown")
    }
}

fn time_left(expires_at: i64, now: i64) -> (res: i64)
    ensures
        res == remaining(expires_at, now),
{
    let left: i128 = expires_at as i128 - now as i128;
    if left < i64::MIN as i128 {
        i64::MIN
    } else if left > i64::MAX as i128 {
        i64::MAX
    } else {
        left as i64
    }
}

fn find_selected(list: &Vec<Approval>, id: &Option<String>) -> (res: usize)
    requires
        list@.len() > 0,
    ensures
        res < list@.len(),
        res == selected_at(approval_models(list@), strings::opt_text(*id)),
{
    let wanted = match id {
        Some(id) => id,
        None => return 0,
    };
    let ghost all = approval_models(list@);
    let ghost p = with_id(wanted@);
    let mut i: usize = 0;
    while i < list.len()
        invariant
            i <= list@.len(),
            all == approval_models(list@),
            p == with_id(wanted@),
            strings::opt_text(*id) == Some(wanted@),
            forall|k: int| 0 <= k < i ==> !p(#[trigger] all[k]),
        decreases list@.len() - i,
    {
        if strings::text_eq(list[i].approval_id.as_str(), wanted.as_str()) {
            proof {
                assert(p(all[i as int]));
                model::lemma_first_index_some(all, p, i as int);
            }
            return i;
        }
        proof {
            assert(!p(all[i as int]));
        }
        i += 1;
    }
    proof {
        model::lemma_first_index_none(all, p);
    }
    0
}

/// The panel, by the time in seconds.
pub fn view(
    approvals: &Vec<Approval>,
    selected_id: &Option<String>,
    busy_id: &Option<String>,
    notice: &Option<Text>,
    hosts: &Vec<HostItem>,
    now: i64,
    i18n: &I18n,
) -> (res: Panel)
    ensures
        res.count@ == text::trf1(
            i18n.lang,
            "agent_approval_pending_count"@,
            strings::decimal(approvals@.len()),
        ),
        approvals@.len() == 0 ==> res.items@.len() == 0 && res.detail is None && text::opt_spans(
            res.line,
        ) == Some(
            match text::opt_spans(*notice) {
                Some(n) => n,
                None => text::tr(i18n.lang, "agent_approval_empty"@),
            },
        ),
        approvals@.len() > 0 ==> {
            let list = approval_models(approvals@);
            let selected = list[selected_at(list, strings::opt_text(*selected_id))];
            &&& res.items@.len() == list.len()
            &&& forall|i: int|
                0 <= i < list.len() ==> shows_item(
                    #[trigger] res.items@[i],
                    list[i],
                    selected,
                    s3_main::host_models(hosts@),
                    i18n.lang,
                )
            &&& res.detail matches Some(d) && shows_detail(
                d,
                selected,
                strings::opt_text(*busy_id),
                now,
                s3_main::host_models(hosts@),
                i18n.lang,
            )
            &&& text::opt_spans(res.line) == text::opt_spans(*notice)
        },
{
    let count = i18n.trf1(
        "agent_approval_pending_count",
        strings::decimal_text(approvals.len() as u64),
    );
    let mut items: Vec<Item> = Vec::new();
    if approvals.len() == 0 {
        let line = match notice {
            Some(n) => n.clone(),
            None => i18n.tr("agent_approval_empty"),
        };
        return Panel { count, items, detail: None, line: Some(line) };
    }
    let ghost list = approval_models(approvals@);
    let at: usize = find_selected(approvals, selected_id);
    let selected = &approvals[at];
    let mut i: usize = 0;
    while i < approvals.len()
        invariant
            i <= approvals@.len(),
            items@.len() == i,
            list == approval_models(approvals@),
            forall|k: int|
                0 <= k < i ==> shows_item(
                    #[trigger] items@[k],
                    list[k],
                    selected@,
                    s3_main::host_models(hosts@),
                    i18n.lang,
                ),
        decreases approvals@.len() - i,
    {
        let approval = &approvals[i];
        items.push(
            Item {
                approval_id: approval.approval_id.clone(),
                target: target_label(approval, hosts, i18n),
                preview: single_line_preview(approval.command.as_str()),
                selected: strings::text_eq(
                    approval.approval_id.as_str(),
                    selected.approval_id.as_str(),
                ),
            },
        );
        i += 1;
    }
    let left: i64 = time_left(selected.expires_at, now);
    let working: bool = match busy_id {
        Some(id) => strings::text_eq(id.as_str(), selected.approval_id.as_str()),
        None => false,
    };
    let detail = Detail {
        approval_id: selected.approval_id.clone(),
        target: target_label(selected, hosts, i18n),
        countdown: if left == 0 {
            i18n.tr("agent_approval_expired")
        } else {
            i18n.trf1("agent_approval_expires_in", strings::signed_text(left))
        },
        expired: left == 0,
        session: i18n.trf1("agent_approval_session", selected.session_id.clone()),
        command: selected.command.clone(),
        reasons: why(selected, i18n),
        approve: if working {
            i18n.tr("agent_approval_processing")
        } else {
            i18n.tr("agent_approval_approve_once")
        },
        can_decide: busy_id.is_none() && left != 0,
    };
    Panel { count, items, detail: Some(detail), line: text::clone_opt(notice) }
}

/// A command shows in full up to 24 characters, and its first 24 with a sign
/// that it goes on otherwise.
pub proof fn law_preview_of_a_command(command: Seq<char>)
    ensures
        command.len() <= 24 ==> preview_of(command) == command,
        command.len() > 24 ==> preview_of(command).len() == 25 && preview_of(command).take(24)
            == command.take(24) && preview_of(command).last() == '…',
{
    if command.len() > 24 {
        assert(preview_of(command).take(24) =~= command.take(24));
    }
}

/// The time that is left is what lies between now and the end, within the range
/// of its number.
pub proof fn law_remaining_time(end: i64, now: i64)
    ensures
        i64::MIN <= end - now <= i64::MAX ==> remaining(end, now) == end - now,
        end - now > i64::MAX ==> remaining(end, now) == i64::MAX,
        end - now < i64::MIN ==> remaining(end, now) == i64::MIN,
{
}

/// The approval with the chosen id is the one that is selected, and the first
/// one where none is chosen or it is gone.
pub proof fn law_chosen_approval_is_selected(
    list: Seq<ApprovalModel>,
    id: Seq<char>,
    i: int,
)
    ensures
        selected_at(list, None) == 0,
        0 <= i < list.len() && list[i].approval_id == id && (forall|j: int|
            0 <= j < i ==> (#[trigger] list[j]).approval_id != id) ==> selected_at(list, Some(id))
            == i,
        (forall|j: int| 0 <= j < list.len() ==> (#[trigger] list[j]).approval_id != id)
            ==> selected_at(list, Some(id)) == 0,
{
    let p = with_id(id);
    if 0 <= i < list.len() && list[i].approval_id == id && (forall|j: int|
        0 <= j < i ==> (#[trigger] list[j]).approval_id != id) {
        assert(model::first_at(list, p, i));
        model::lemma_first_index_some(list, p, i);
    }
    if forall|j: int| 0 <= j < list.len() ==> (#[trigger] list[j]).approval_id != id {
        assert forall|j: int| 0 <= j < list.len() implies !p(#[trigger] list[j]) by {}
        model::lemma_first_index_none(list, p);
    }
}

/// An action is told by the name of its host, and by this machine where it has
/// none or the host is unknown; the reasons are the rules that it matches, or
/// else those that were given.
pub proof fn law_action_is_told(
    a: ApprovalModel,
    hosts: Seq<HostModel>,
    lang: Lang,
    i: int,
)
    ensures
        a.host_id is None ==> a.target(hosts, lang) == seq![
            SpanModel::Translated {
                lang,
                key: "agent_approval_local_terminal"@,
                args: Seq::empty(),
            },
        ],
        a.host_id matches Some(id) && 0 <= i < hosts.len() && hosts[i].id == id && (forall|j: int|
            0 <= j < i ==> (#[trigger] hosts[j]).id != id) ==> a.target(hosts, lang) == seq![
            SpanModel::Plain(hosts[i].name),
        ],
        a.matched_rules.len() == 0 && a.reasons.len() > 0 ==> a.why(lang) == seq![
            SpanModel::Plain(strings::joined(a.reasons, " · "@)),
        ],
        a.matched_rules.len() > 0 ==> a.why(lang) == rules_text(lang, a.matched_rules),
        a.matched_rules.len() == 0 && a.reasons.len() == 0 ==> a.why(lang) == seq![
            SpanModel::Translated {
                lang,
                key: "agent_approval_reason_unknown"@,
                args: Seq::empty(),
            },
        ],
{
    if a.host_id is Some {
        let id = a.host_id->0;
        let p = |h: HostModel| h.id == id;
        if 0 <= i < hosts.len() && hosts[i].id == id && (forall|j: int|
            0 <= j < i ==> (#[trigger] hosts[j]).id != id) {
            assert(model::first_at(hosts, p, i));
            model::lemma_first_index_some(hosts, p, i);
        }
    }
}

/// A rule is told by the key that is made of its own name, or by its own name
/// where it has no key; so no two rules read the same.
pub proof fn law_rules_have_their_own_names(rule: Seq<char>)
    ensures
        rule_key(rule) matches Some(key) ==> key == "agent_rule_"@ + rule,
        rule_key("recursive_delete"@) is Some,
        rule_key("raw_disk_write"@) is Some,
        rule_key("format_filesystem"@) is Some,
        rule_key("power_control"@) is Some,
        rule_key("delete_user"@) is Some,
        rule_key("flush_firewall"@) is Some,
        rule_key("disable_firewall"@) is Some,
        rule_key("disable_service"@) is Some,
        rule_key("delete_cluster_resource"@) is Some,
        rule_key("docker_prune"@) is Some,
        rule_key("drop_database"@) is Some,
        rule_key("root_world_writable"@) is Some,
        rule_key("fork_bomb"@) is Some,
        rule_key("account_file_write"@) is Some,
{
    reveal_strlit("agent_rule_");
    if rule == "recursive_delete"@ {
        reveal_strlit("recursive_delete");
        reveal_strlit("agent_rule_recursive_delete");
        assert("agent_rule_recursive_delete"@ =~= "agent_rule_"@ + rule);
    }
    if rule == "raw_disk_write"@ {
        reveal_strlit("raw_disk_write");
        reveal_strlit("agent_rule_raw_disk_write");
        assert("agent_rule_raw_disk_write"@ =~= "agent_rule_"@ + rule);
    }
    if rule == "format_filesystem"@ {
        reveal_strlit("format_filesystem");
        reveal_strlit("agent_rule_format_filesystem");
        assert("agent_rule_format_filesystem"@ =~= "agent_rule_"@ + rule);
    }
    if rule == "power_control"@ {
        reveal_strlit("power_control");
        reveal_strlit("agent_rule_power_control");
        assert("agent_rule_power_control"@ =~= "agent_rule_"@ + rule);
    }
    if rule == "delete_user"@ {
        reveal_strlit("delete_user");
        reveal_strlit("agent_rule_delete_user");
        assert("agent_rule_delete_user"@ =~= "agent_rule_"@ + rule);
    }
    if rule == "flush_firewall"@ {
        reveal_strlit("flush_firewall");
        reveal_strlit("agent_rule_flush_firewall");
        assert("agent_rule_flush_firewall"@ =~= "agent_rule_"@ + rule);
    }
    if rule == "disable_firewall"@ {
        reveal_strlit("disable_firewall");
        reveal_strlit("agent_rule_disable_firewall");
        assert("agent_rule_disable_firewall"@ =~= "agent_rule_"@ + rule);
    }
    if rule == "disable_service"@ {
        reveal_strlit("disable_service");
        reveal_strlit("agent_rule_disable_service");
        assert("agent_rule_disable_service"@ =~= "agent_rule_"@ + rule);
    }
    if rule == "delete_cluster_resource"@ {
        reveal_strlit("delete_cluster_resource");
        reveal_strlit("agent_rule_delete_cluster_resource");
        assert("agent_rule_delete_cluster_resource"@ =~= "agent_rule_"@ + rule);
    }
    if rule == "docker_prune"@ {
        reveal_strlit("docker_prune");
        reveal_strlit("agent_rule_docker_prune");
        assert("agent_rule_docker_prune"@ =~= "agent_rule_"@ + rule);
    }
    if rule == "drop_database"@ {
        reveal_strlit("drop_database");
        reveal_strlit("agent_rule_drop_database");
        assert("agent_rule_drop_database"@ =~= "agent_rule_"@ + rule);
    }
    if rule == "root_world_writable"@ {
        reveal_strlit("root_world_writable");
        reveal_strlit("agent_rule_root_world_writable");
        assert("agent_rule_root_world_writable"@ =~= "agent_rule_"@ + rule);
    }
    if rule == "fork_bomb"@ {
        reveal_strlit("fork_bomb");
        reveal_strlit("agent_rule_fork_bomb");
        assert("agent_rule_fork_bomb"@ =~= "agent_rule_"@ + rule);
    }
    if rule == "account_file_write"@ {
        reveal_strlit("account_file_write");
        reveal_strlit("agent_rule_account_file_write");
        assert("agent_rule_account_file_write"@ =~= "agent_rule_"@ + rule);
    }
}

/// Rules are told one after another, with a dot between them.
pub proof fn law_rules_are_told_in_order(lang: Lang, rules: Seq<Seq<char>>, rule: Seq<char>)
    ensures
        rules_text(lang, Seq::empty()).len() == 0,
        rule_key(rule) is None ==> rules_text(lang, seq![rule]) == seq![SpanModel::Plain(rule)],
        rule_key(rule) is Some ==> rules_text(lang, seq![rule]) == seq![
            SpanModel::Translated { lang, key: "agent_rule_"@ + rule, args: Seq::empty() },
        ],
        rules.len() > 0 ==> rules_text(lang, rules.push(rule)) == rules_text(lang, rules) + seq![
            SpanModel::Plain(" · "@),
        ] + rules_text(lang, seq![rule]),
{
    law_rules_have_their_own_names(rule);
    assert(rules.push(rule).drop_last() =~= rules);
    assert(seq![rule][0] == rule);
}

/// A decision can be made while none is being made and time is left; the detail
/// names the approval, its command and its target as the entry of the list does.
pub proof fn law_detail_is_the_approval(
    d: Detail,
    a: ApprovalModel,
    busy: Option<Seq<char>>,
    now: i64,
    hosts: Seq<HostModel>,
    lang: Lang,
)
    requires
        shows_detail(d, a, busy, now, hosts, lang),
    ensures
        d.approval_id@ == a.approval_id,
        d.command@ == a.command,
        d.target@ == a.target(hosts, lang),
        d.reasons@ == a.why(lang),
        d.can_decide <==> busy is None && a.expires_at != now,
        d.expired <==> a.expires_at == now,
{
}

/// An entry of the list stands for its own approval, and exactly the one that is
/// selected shows as selected.
pub proof fn law_entry_is_the_approval(
    item: Item,
    a: ApprovalModel,
    selected: ApprovalModel,
    hosts: Seq<HostModel>,
    lang: Lang,
)
    requires
        shows_item(item, a, selected, hosts, lang),
    ensures
        item.approval_id@ == a.approval_id,
        item.target@ == a.target(hosts, lang),
        item.selected <==> a.approval_id == selected.approval_id,
        a.command.len() <= 24 ==> item.preview@ == a.command,
        a.command.len() > 24 ==> item.preview@ == a.command.take(24).push('…'),
{
}

} // verus!
