//! Hosts and backups as the daemon sends them.
use vstd::prelude::*;

use crate::json;
use crate::json::{Json, JsonModel};
use crate::screens::s3_main;
use crate::screens::s3_main::{HostItem, HostModel};
use crate::strings;

verus! {

/// The texts of the member `tags`, where it is an array.
pub open spec fn tags_of(j: JsonModel) -> Seq<Seq<char>> {
    match j.items_at("tags"@) {
        Some(items) => json::texts_among(items),
        None => Seq::empty(),
    }
}

/// How far agents are trusted on a host: they have to ask where nothing is said.
pub open spec fn trust_of(j: JsonModel) -> Seq<char> {
    match j.text_at("agent_trust"@) {
        Some(trust) => trust,
        None => "ask"@,
    }
}

/// The host that a value describes, where it has all that a host needs. Of the
/// port, 16 bits count.
pub open spec fn host_of(j: JsonModel) -> Option<HostModel> {
    if j.text_at("id"@) is Some && j.text_at("name"@) is Some && j.text_at("host"@) is Some
        && j.text_at("user"@) is Some && j.unsigned_at("port"@) is Some && j.member(
        "tags"@,
    ) is Some && j.text_at("auth_kind"@) is Some {
        Some(
            HostModel {
                id: j.text_at("id"@)->0,
                name: j.text_at("name"@)->0,
                host: j.text_at("host"@)->0,
                user: j.text_at("user"@)->0,
                port: (j.unsigned_at("port"@)->0 % 0x1_0000) as u16,
                tags: tags_of(j),
                group: j.text_at("group"@),
                color: j.text_at("color"@),
                auth_kind: j.text_at("auth_kind"@)->0,
                notes: j.text_at("notes"@),
                agent_trust: trust_of(j),
            },
        )
    } else {
        None
    }
}

/// The hosts that values describe, in order; other values are passed over.
pub open spec fn hosts_among(items: Seq<JsonModel>) -> Seq<HostModel>
    decreases items.len(),
{
    if items.len() == 0 {
        Seq::empty()
    } else {
        match host_of(items.last()) {
            Some(host) => hosts_among(items.drop_last()).push(host),
            None => hosts_among(items.drop_last()),
        }
    }
}

/// The hosts of an array; none where the value is no array.
pub open spec fn hosts_of(j: JsonModel) -> Seq<HostModel> {
    match j.items() {
        Some(items) => hosts_among(items),
        None => Seq::empty(),
    }
}

fn parse_host(j: &Json) -> (res: Option<HostItem>)
    ensures
        match res {
            Some(host) => host_of(j@) == Some(host@),
            None => host_of(j@) == None::<HostModel>,
        },
{
    let id = match j.string_at("id") {
        Some(s) => s,
        None => return None,
    };
    let name = match j.string_at("name") {
        Some(s) => s,
        None => return None,
    };
    let host = match j.string_at("host") {
        Some(s) => s,
        None => return None,
    };
    let user = match j.string_at("user") {
        Some(s) => s,
        None => return None,
    };
    let port: u64 = match j.u64_at("port") {
        Some(n) => n,
        None => return None,
    };
    let tags: Vec<String> = match j.get("tags") {
        Some(value) => match value.as_array() {
            Some(items) => json::strings_among(items),
            None => {
                let empty: Vec<String> = Vec::new();
                proof {
                    assert(strings::texts(empty@) =~= Seq::<Seq<char>>::empty());
                }
                empty
            },
        },
        None => return None,
    };
    let auth_kind = match j.string_at("auth_kind") {
        Some(s) => s,
        None => return None,
    };
    let agent_trust = match j.string_at("agent_trust") {
        Some(s) => s,
        None => "ask".to_string(),
    };
    Some(
        HostItem {
            id,
            name,
            host,
            user,
            port: (port % 0x1_0000) as u16,
            tags,
            group: j.string_at("group"),
            color: j.string_at("color"),
            auth_kind,
            notes: j.string_at("notes"),
            agent_trust,
        },
    )
}

/// The hosts of an array; none where the value is no array.
pub fn parse_hosts(value: &Json) -> (res: Vec<HostItem>)
    ensures
        s3_main::host_models(res@) == hosts_of(value@),
{
    let mut out: Vec<HostItem> = Vec::new();
    proof {
        assert(s3_main::host_models(out@) =~= Seq::<HostModel>::empty());
    }
    let items = match value.as_array() {
        Some(items) => items,
        None => return out,
    };
    let ghost all = json::models(items@);
    let mut i: usize = 0;
    proof {
        assert(all.take(0) =~= Seq::<JsonModel>::empty());
    }
    while i < items.len()
        invariant
            i <= items@.len(),
            all == json::models(items@),
            s3_main::host_models(out@) == hosts_among(all.take(i as int)),
        decreases items@.len() - i,
    {
        proof {
            assert(all.take(i + 1).drop_last() =~= all.take(i as int));
            assert(all.take(i + 1).last() == items@[i as int]@);
        }
        let ghost before = out@;
        if let Some(host) = parse_host(&items[i]) {
            out.push(host);
            proof {
                assert(s3_main::host_models(out@) =~= s3_main::host_models(before).push(host@));
            }
        }
        i += 1;
    }
    proof {
        assert(all.take(i as int) =~= all);
    }
    out
}

/// The byte that a value stands for.
pub open spec fn byte_of(j: JsonModel) -> Option<u8> {
    match j.unsigned() {
        Some(n) => if n <= 255 {
            Some(n as u8)
        } else {
            None
        },
        None => None,
    }
}

/// The bytes of the array `data`, where it is there and holds nothing else.
pub open spec fn backup_of(j: JsonModel) -> Option<Seq<u8>> {
    match j.items_at("data"@) {
        Some(items) => if forall|i: int|
            0 <= i < items.len() ==> byte_of(#[trigger] items[i]) is Some {
            Some(Seq::new(items.len(), |i: int| byte_of(items[i])->0))
        } else {
            None
        },
        None => None,
    }
}

/// The bytes of a backup.
pub fn parse_backup_bytes(value: &Json) -> (res: Result<Vec<u8>, ()>)
    ensures
        match res {
            Ok(bytes) => backup_of(value@) == Some(bytes@),
            Err(_) => backup_of(value@) == None::<Seq<u8>>,
        },
{
    let items = match value.array_at("data") {
        Some(items) => items,
        None => return Err(()),
    };
    let ghost all = json::models(items@);
    let mut out: Vec<u8> = Vec::new();
    let mut i: usize = 0;
    while i < items.len()
        invariant
            i <= items@.len(),
            all == json::models(items@),
            value@.items_at("data"@) == Some(all),
            out@.len() == i,
            forall|k: int| 0 <= k < i ==> byte_of(#[trigger] all[k]) == Some(out@[k]),
        decreases items@.len() - i,
    {
        proof {
            assert(all[i as int] == items@[i as int]@);
        }
        match items[i].as_u64() {
            Some(n) => {
                if n > 255 {
                    proof {
                        assert(byte_of(all[i as int]) is None);
                    }
                    return Err(());
                }
                out.push(n as u8);
            },
            None => {
                proof {
                    assert(byte_of(all[i as int]) is None);
                }
                return Err(());
            },
        }
        i += 1;
    }
    proof {
        assert(out@ =~= backup_of(value@)->0);
    }
    Ok(out)
}

/// The names of the values that have one, in order.
pub open spec fn names_among(items: Seq<JsonModel>) -> Seq<Seq<char>>
    decreases items.len(),
{
    if items.len() == 0 {
        Seq::empty()
    } else {
        match items.last().text_at("name"@) {
            Some(name) => names_among(items.drop_last()).push(name),
            None => names_among(items.drop_last()),
        }
    }
}

/// The names in the member `remote_hosts`.
pub open spec fn remote_names(j: JsonModel) -> Seq<Seq<char>> {
    match j.items_at("remote_hosts"@) {
        Some(items) => names_among(items),
        None => Seq::empty(),
    }
}

/// The names in the member `remote_hosts`.
pub fn parse_remote_names(value: &Json) -> (res: Vec<String>)
    ensures
        strings::texts(res@) == remote_names(value@),
{
    let mut out: Vec<String> = Vec::new();
    proof {
        assert(strings::texts(out@) =~= Seq::<Seq<char>>::empty());
    }
    let items = match value.array_at("remote_hosts") {
        Some(items) => items,
        None => return out,
    };
    let ghost all = json::models(items@);
    let mut i: usize = 0;
    proof {
        assert(all.take(0) =~= Seq::<JsonModel>::empty());
    }
    while i < items.len()
        invariant
            i <= items@.len(),
            all == json::models(items@),
            strings::texts(out@) == names_among(all.take(i as int)),
        decreases items@.len() - i,
    {
        proof {
            assert(all.take(i + 1).drop_last() =~= all.take(i as int));
            assert(all.take(i + 1).last() == items@[i as int]@);
        }
        let ghost before = out@;
        if let Some(name) = items[i].string_at("name") {
            out.push(name);
            proof {
                assert(strings::texts(out@) =~= strings::texts(before).push(name@));
            }
        }
        i += 1;
    }
    proof {
        assert(all.take(i as int) =~= all);
    }
    out
}

/// An array of bytes, one number each.
pub open spec fn byte_array(bytes: Seq<u8>) -> JsonModel {
    JsonModel::Array(Seq::new(bytes.len(), |i: int| JsonModel::Unsigned(bytes[i] as nat)))
}

/// An array of bytes, one number each.
pub fn bytes_json(bytes: &Vec<u8>) -> (res: Json)
    ensures
        res@ == byte_array(bytes@),
{
    let mut items: Vec<Json> = Vec::new();
    let mut i: usize = 0;
    while i < bytes.len()
        invariant
            i <= bytes@.len(),
            items@.len() == i,
            forall|k: int|
                0 <= k < i ==> (#[trigger] items@[k])@ == JsonModel::Unsigned(bytes@[k] as nat),
        decreases bytes@.len() - i,
    {
        items.push(Json::Unsigned(bytes[i] as u64));
        i += 1;
    }
    proof {
        json::lemma_array(items);
        assert(json::models(items@) =~= byte_array(bytes@)->Array_0);
    }
    Json::Array(items)
}

/// Reading the bytes of a backup gives the bytes that were written.
pub proof fn law_backup_bytes_round_trip(bytes: Seq<u8>)
    ensures
        backup_of(JsonModel::Object(seq![("data"@, byte_array(bytes))])) == Some(bytes),
{
    let j = JsonModel::Object(seq![("data"@, byte_array(bytes))]);
    assert(j.member("data"@) == Some(byte_array(bytes)));
    let items = byte_array(bytes)->Array_0;
    assert(j.items_at("data"@) == Some(items));
    assert forall|i: int| 0 <= i < items.len() implies byte_of(#[trigger] items[i]) == Some(bytes[i]) by {}
    assert(backup_of(j)->0 =~= bytes);
}

/// A value describes a host where all that a host needs is there; each thing of
/// the host is the one under its own name, and agents have to ask where nothing
/// is said of them.
pub proof fn law_described_hosts(j: JsonModel)
    ensures
        host_of(j) matches Some(h) ==> {
            &&& j.text_at("id"@) == Some(h.id)
            &&& j.text_at("name"@) == Some(h.name)
            &&& j.text_at("host"@) == Some(h.host)
            &&& j.text_at("user"@) == Some(h.user)
            &&& j.unsigned_at("port"@) is Some
            &&& j.unsigned_at("port"@)->0 <= 65535 ==> h.port == j.unsigned_at("port"@)->0
            &&& h.group == j.text_at("group"@)
            &&& h.color == j.text_at("color"@)
            &&& j.text_at("auth_kind"@) == Some(h.auth_kind)
            &&& h.notes == j.text_at("notes"@)
            &&& j.text_at("agent_trust"@) is Some ==> Some(h.agent_trust) == j.text_at(
                "agent_trust"@,
            )
            &&& j.text_at("agent_trust"@) is None ==> h.agent_trust == "ask"@
            &&& j.items_at("tags"@) matches Some(items) ==> h.tags == json::texts_among(items)
        },
        j.text_at("id"@) is Some && j.text_at("name"@) is Some && j.text_at("host"@) is Some
            && j.text_at("user"@) is Some && j.unsigned_at("port"@) is Some && j.member("tags"@)
            is Some && j.text_at("auth_kind"@) is Some ==> host_of(j) is Some,
{
}

/// A list gives the hosts that it describes, in order, and passes over the rest;
/// the names of remote hosts likewise.
pub proof fn law_described_lists(items: Seq<JsonModel>, item: JsonModel)
    ensures
        hosts_among(Seq::empty()).len() == 0,
        host_of(item) matches Some(h) ==> hosts_among(items.push(item)) == hosts_among(items).push(
            h,
        ),
        host_of(item) is None ==> hosts_among(items.push(item)) == hosts_among(items),
        names_among(Seq::empty()).len() == 0,
        item.text_at("name"@) matches Some(n) ==> names_among(items.push(item)) == names_among(
            items,
        ).push(n),
        item.text_at("name"@) is None ==> names_among(items.push(item)) == names_among(items),
        hosts_of(JsonModel::Array(items)) == hosts_among(items),
        hosts_of(JsonModel::Null).len() == 0,
{
    assert(items.push(item).drop_last() =~= items);
}

} // verus!
