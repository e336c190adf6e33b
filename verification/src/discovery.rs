//! The messages on the discovery topic.

use crate::collections;
use crate::json;
use crate::json::Json;
use crate::model::NetworkEvent;
use crate::text::str_eq;
use vstd::prelude::*;
use vstd::string::*;

verus! {

/// What a message on the discovery topic says.
#[derive(Debug, PartialEq, Eq)]
pub enum Discovery {
    /// Nothing that this node understands.
    Ignored,
    /// A group was deleted.
    GroupDeleted { id: String },
    /// A peer lists the groups it knows.
    Groups { ids: Vec<String> },
}

/// The strings of a JSON array, in order; other items are passed over.
pub open spec fn strings_of(items: Seq<Json>) -> Seq<Seq<char>>
    decreases items.len(),
{
    if items.len() == 0 {
        Seq::empty()
    } else {
        let before = strings_of(items.drop_last());
        match items.last().text() {
            Some(s) => before.push(s),
            None => before,
        }
    }
}

/// Collects the strings of a JSON array.
pub fn collect_strings(items: &Vec<Json>) -> (r: Vec<String>)
    ensures
        collections::texts(r@) == strings_of(items@),
{
    let mut out: Vec<String> = Vec::new();
    let mut i: usize = 0;
    assert(collections::texts(out@) =~= strings_of(items@.take(0)));
    while i < items.len()
        invariant
            i <= items@.len(),
            collections::texts(out@) == strings_of(items@.take(i as int)),
        decreases items.len() - i,
    {
        let ghost before = collections::texts(out@);
        assert(items@.take(i + 1).drop_last() =~= items@.take(i as int));
        match items[i].as_str() {
            Some(s) => {
                out.push(s.to_owned());
                assert(collections::texts(out@) =~= before.push(s@));
            },
            None => {},
        }
        i = i + 1;
    }
    assert(items@.take(i as int) =~= items@);
    out
}

/// What a parsed message says. `event` is what its `event` member reads as.
pub open spec fn says(message: Json, event: Option<NetworkEvent>, r: Discovery) -> bool {
    let kind = message.member_text("msg_type"@);
    if kind == Some("group_deleted"@) {
        match event {
            Some(NetworkEvent::GroupDeleted { id }) => if message.member("event"@) is Some {
                r == (Discovery::GroupDeleted { id })
            } else {
                r is Ignored
            },
            _ => r is Ignored,
        }
    } else if kind == Some("groups_exchange"@) {
        match message.member("local_groups"@) {
            Some(Json::Array(items)) => r matches Discovery::Groups { ids } && collections::texts(
                ids@,
            ) == strings_of(items@),
            _ => r is Ignored,
        }
    } else {
        r is Ignored
    }
}

/// Reads a parsed discovery message.
pub fn read_discovery(message: &Json, event: Option<NetworkEvent>) -> (r: Discovery)
    ensures
        says(*message, event, r),
{
    match message.get_str("msg_type") {
        None => Discovery::Ignored,
        Some(kind) => {
            proof {
                reveal_strlit("group_deleted");
                reveal_strlit("groups_exchange");
                assert("group_deleted"@.len() != "groups_exchange"@.len());
            }
            if str_eq(kind, "group_deleted") {
                match (message.get("event"), event) {
                    (Some(_), Some(NetworkEvent::GroupDeleted { id })) => Discovery::GroupDeleted {
                        id,
                    },
                    _ => Discovery::Ignored,
                }
            } else if str_eq(kind, "groups_exchange") {
                match message.get("local_groups") {
                    Some(Json::Array(items)) => Discovery::Groups { ids: collect_strings(items) },
                    _ => Discovery::Ignored,
                }
            } else {
                Discovery::Ignored
            }
        },
    }
}

/// Reads a discovery message as it came off the wire: what is not JSON is passed over.
pub fn parse_discovery(content: &str, event: Option<NetworkEvent>) -> (r: Discovery)
    ensures
        match json::parsed_json(content@) {
            Some(message) => says(message, event, r),
            None => r is Ignored,
        },
{
    match json::parse_json(content) {
        Some(message) => read_discovery(&message, event),
        None => Discovery::Ignored,
    }
}

} // verus!
