//! What passes between this node and others besides events of a group: messages, profiles,
//! invitations and what is found out about groups.

use crate::chat;
use crate::chat::{ChatRecorded, DirectChatMessage, StreamStep};
use crate::collections;
use crate::discovery;
use crate::discovery::Discovery;
use crate::gossip;
use crate::hash;
use crate::invite;
use crate::invite::{Invite, InviteError, Join};
use crate::json;
use crate::json::Json;
use crate::model::{
    DirectChatOutbound, Effect, NetworkCommand, NetworkEvent, SwiftEvent,
};
use crate::profile;
use crate::profile::{AvatarSource, Profile, ProfileChange};
use crate::tables;
use crate::tables::{ObjectRow, Statement, Tables};
use vstd::prelude::*;
use vstd::string::*;
use vstd::utf8::*;

verus! {

proof fn lemma_apply_one(s: Statement, t: Tables)
    ensures
        tables::apply_all(seq![s], t) == s.apply(t),
{
    reveal_with_fuel(tables::apply_all, 2);
    assert(seq![s].drop_last() =~= Seq::<Statement>::empty());
}

proof fn lemma_apply_two(s1: Statement, s2: Statement, t: Tables)
    ensures
        tables::apply_all(seq![s1, s2], t) == s2.apply(s1.apply(t)),
{
    assert(seq![s1, s2].drop_last() =~= seq![s1]);
    lemma_apply_one(s1, t);
}

/// Whether a row holds a message: its text, who wrote it, what it answers, where and when.
pub open spec fn holds_message(
    o: ObjectRow,
    workspace_id: Seq<char>,
    message: Seq<char>,
    author: Seq<char>,
    parent_id: Option<String>,
    at: i64,
) -> bool {
    &&& o.kind is Chat
    &&& o.workspace_id == Some(workspace_id)
    &&& o.name@ == message
    &&& o.hash matches Some(h) && h@ == author
    &&& o.data == (match parent_id {
        Some(p) => Some(encode_utf8(p@)),
        None => None,
    })
    &&& o.created_at == at
}

/// Whether an event shows a message just so.
pub open spec fn shows_message(
    e: SwiftEvent,
    id: Seq<char>,
    workspace_id: Seq<char>,
    message: Seq<char>,
    author: Seq<char>,
    parent_id: Option<String>,
    at: i64,
) -> bool {
    &&& e matches SwiftEvent::Network(
        NetworkEvent::ChatSent {
            id: i,
            workspace_id: w,
            message: m,
            author: a,
            parent_id: p,
            timestamp: ts,
        },
    )
    &&& i@ == id
    &&& w@ == workspace_id
    &&& m@ == message
    &&& a@ == author
    &&& p == parent_id
    &&& ts == at
}

/// A message that comes from a peer is stored as that peer's, in the workspace of the stream, and
/// again as an incoming direct message; both are shown. Nothing that was stored is lost.
pub proof fn a_message_from_a_peer_is_theirs(
    peer_id: &String,
    workspace_id: &String,
    message: String,
    parent_id: Option<String>,
    clock: &str,
    now: i64,
    r: ChatRecorded,
    t: Tables,
)
    requires
        call_ensures(
            chat::incoming,
            (peer_id, workspace_id, DirectChatMessage { message, parent_id }, clock, now),
            r,
        ),
    ensures
        r.id@ == hash::text_id("chat:"@ + peer_id@ + "-"@ + message@ + "-"@ + clock@),
        ({
            let after = tables::apply_all(r.statements@, t);
            let row = after.messages[r.id@];
            &&& after.objects.dom() == t.objects.dom().insert(r.id@)
            &&& after.messages.dom() == t.messages.dom().insert(r.id@)
            &&& forall|k: Seq<char>| #[trigger]
                t.objects.dom().contains(k) ==> after.objects[k] == t.objects[k]
            &&& forall|k: Seq<char>| #[trigger]
                t.messages.dom().contains(k) ==> after.messages[k] == t.messages[k]
            &&& !t.objects.dom().contains(r.id@) ==> holds_message(
                after.objects[r.id@],
                workspace_id@,
                message@,
                peer_id@,
                parent_id,
                now,
            )
            &&& !t.messages.dom().contains(r.id@) ==> {
                &&& row.peer_id@ == peer_id@
                &&& row.workspace_id@ == workspace_id@
                &&& row.message@ == message@
                &&& row.parent_id == parent_id
                &&& !row.is_outgoing
                &&& row.timestamp == now
            }
        }),
        r.events@.len() == 2,
        shows_message(r.events@[0], r.id@, workspace_id@, message@, peer_id@, parent_id, now),
        r.events@[1] == (SwiftEvent::DirectMessageReceived {
            id: r.id,
            peer_id: *peer_id,
            message,
            timestamp: now,
            is_incoming: true,
        }),
{
    assert(r.statements@ =~= seq![r.statements@[0], r.statements@[1]]);
    lemma_apply_two(r.statements@[0], r.statements@[1], t);
    let after = tables::apply_all(r.statements@, t);
    assert(after.objects.dom() =~= t.objects.dom().insert(r.id@));
    assert(after.messages.dom() =~= t.messages.dom().insert(r.id@));
}

/// A message that goes to a peer is stored as this node's own, in the workspace that it was written
/// in, and shown as such. What goes on the wire is its text and what it answers.
pub proof fn a_message_to_a_peer_is_ours(
    node_id: &String,
    workspace_id: String,
    message: String,
    parent_id: Option<String>,
    clock: &str,
    now: i64,
    r: ChatRecorded,
    wire: DirectChatMessage,
    t: Tables,
)
    requires
        call_ensures(
            chat::outgoing,
            (node_id, DirectChatOutbound { workspace_id, message, parent_id }, clock, now),
            r,
        ),
        call_ensures(
            chat::outbound_message,
            (&DirectChatOutbound { workspace_id, message, parent_id },),
            wire,
        ),
    ensures
        wire.message@ == message@,
        wire.parent_id == parent_id,
        r.id@ == hash::text_id("chat:"@ + node_id@ + "-"@ + message@ + "-"@ + clock@),
        ({
            let after = tables::apply_all(r.statements@, t);
            &&& after.objects.dom() == t.objects.dom().insert(r.id@)
            &&& forall|k: Seq<char>| #[trigger]
                t.objects.dom().contains(k) ==> after.objects[k] == t.objects[k]
            &&& after.messages == t.messages
            &&& !t.objects.dom().contains(r.id@) ==> holds_message(
                after.objects[r.id@],
                workspace_id@,
                message@,
                node_id@,
                parent_id,
                now,
            )
        }),
        r.events@.len() == 1,
        shows_message(r.events@[0], r.id@, workspace_id@, message@, node_id@, parent_id, now),
{
    assert(r.statements@ =~= seq![r.statements@[0]]);
    lemma_apply_one(r.statements@[0], t);
    let after = tables::apply_all(r.statements@, t);
    assert(after.objects.dom() =~= t.objects.dom().insert(r.id@));
}

/// A stream goes on after a message in either direction and after one that could not be read or
/// written as such; it ends when the stream or the channel behind it does.
pub proof fn streams_end_with_their_ends(step: StreamStep, r: bool)
    requires
        call_ensures(chat::stream_continues, (step,), r),
    ensures
        step is MessageIn || step is UnreadableIn || step is MessageOut || step is UnwritableOut
            ==> r,
        step is ReadFailed || step is WriteFailed || step is ChannelClosed ==> !r,
{
}

/// The profile of this node is stored, told to each of its groups and shown, and says the same each
/// time: peers that hear of it store what is stored here.
pub proof fn a_profile_is_told_as_it_is_stored(
    node_id: &String,
    display_name: &String,
    avatar_hash: &Option<String>,
    group_ids: &Vec<String>,
    now: i64,
    r: ProfileChange,
    heard: Vec<Statement>,
    t: Tables,
    i: int,
)
    requires
        call_ensures(
            profile::set_my_profile,
            (node_id, display_name, avatar_hash, group_ids, now),
            r,
        ),
        call_ensures(
            gossip::event_statements,
            (
                &NetworkEvent::ProfileUpdated {
                    node_id: *node_id,
                    display_name: *display_name,
                    avatar_hash: *avatar_hash,
                },
                now,
            ),
            heard,
        ),
    ensures
        ({
            let event = NetworkEvent::ProfileUpdated {
                node_id: *node_id,
                display_name: *display_name,
                avatar_hash: *avatar_hash,
            };
            &&& r.effects@.len() == group_ids@.len() + 1
            &&& 0 <= i < group_ids@.len() ==> r.effects@[i] == Effect::Send(
                NetworkCommand::Broadcast { group_id: group_ids@[i], event },
            )
            &&& r.effects@.last() == Effect::Emit(SwiftEvent::Network(event))
        }),
        tables::apply_all(heard@, t) == r.statement.apply(t),
        ({
            let row = r.statement.apply(t).profiles[node_id@];
            &&& row.display_name == Some(*display_name)
            &&& avatar_hash is Some ==> row.avatar_hash == *avatar_hash
            &&& row.updated_at == now
            &&& row.status == "online"@
        }),
{
    assert(heard@ =~= seq![heard@[0]]);
    lemma_apply_one(heard@[0], t);
}

/// What is stored of a peer's status is that status, seen now; what else is known of the peer stays.
pub proof fn a_status_is_the_peers_own(
    node_id: String,
    status: String,
    now: i64,
    r: Statement,
    t: Tables,
    k: Seq<char>,
)
    requires
        call_ensures(profile::update_peer_status, (node_id, status, now), r),
    ensures
        ({
            let after = r.apply(t);
            let row = after.profiles[node_id@];
            &&& after == Tables { profiles: after.profiles, ..t }
            &&& after.profiles.dom().contains(node_id@)
            &&& row.status == status@
            &&& row.last_seen == Some(now)
            &&& t.profiles.dom().contains(node_id@) ==> row.display_name
                == t.profiles[node_id@].display_name && row.avatar_hash
                == t.profiles[node_id@].avatar_hash
            &&& k != node_id@ ==> after.profiles.dom().contains(k) == t.profiles.dom().contains(k)
            &&& k != node_id@ && t.profiles.dom().contains(k) ==> after.profiles[k]
                == t.profiles[k]
        }),
{
}

/// A profile that is stored is shown as it is. Where none is, nothing is known but whose it is:
/// this node is online, of any other that is not known. The avatar is the file that was named, by
/// its digest, or the one that was there.
pub proof fn profiles_are_shown_as_stored(
    stored: Option<Profile>,
    node_id: &str,
    theirs: Profile,
    mine: Profile,
    source: AvatarSource,
    avatar: Option<String>,
)
    requires
        call_ensures(profile::user_profile, (stored, node_id), theirs),
        call_ensures(profile::my_profile, (stored, node_id), mine),
        call_ensures(profile::choose_avatar, (source,), avatar),
    ensures
        stored matches Some(p) ==> theirs == p && mine == p,
        stored is None ==> {
            &&& theirs.node_id@ == node_id@
            &&& mine.node_id@ == node_id@
            &&& theirs.status@ == "unknown"@
            &&& mine.status@ == "online"@
            &&& theirs.display_name is None && mine.display_name is None
            &&& theirs.avatar_hash is None && mine.avatar_hash is None
            &&& theirs.last_seen is None && mine.last_seen is None
            &&& theirs.updated_at is None && mine.updated_at is None
        },
        source matches AvatarSource::Bytes(data) ==> avatar is Some && avatar->0@
            == hash::content_id(data@),
        source is Unreadable ==> avatar is None,
        source matches AvatarSource::Stored(kept) ==> avatar == kept,
{
}

/// Whether the member under a key is this text.
pub open spec fn says(json: Json, key: Seq<char>, value: Seq<char>) -> bool {
    json.member(key) matches Some(Json::Text(v)) && v@ == value
}

/// Whether the member under a key is a text.
pub open spec fn has_text(json: Json, key: Seq<char>) -> bool {
    json.member(key) matches Some(Json::Text(_))
}

/// An invitation is read from its own members: it has to name the group and say what it is called;
/// what it does not say of the group's look is the usual one. Of what is missing the identifier
/// counts first.
pub proof fn an_invitation_says_what_its_members_say(
    text: &str,
    json: Json,
    r: Result<Invite, InviteError>,
)
    requires
        json::parsed_json(text@) == Some(json),
        call_ensures(invite::parse_invite, (text,), r),
    ensures
        r is Ok <==> has_text(json, "group_id"@) && has_text(json, "group_name"@),
        r matches Err(e) ==> (e is MissingGroupId <==> !has_text(json, "group_id"@)),
        r matches Err(e) ==> e is MissingGroupId || e is MissingGroupName,
        r matches Ok(i) ==> {
            &&& says(json, "group_id"@, i.group_id@)
            &&& says(json, "group_name"@, i.group_name@)
            &&& has_text(json, "group_icon"@) ==> says(json, "group_icon"@, i.group_icon@)
            &&& !has_text(json, "group_icon"@) ==> i.group_icon@ == "folder.fill"@
            &&& has_text(json, "group_color"@) ==> says(json, "group_color"@, i.group_color@)
            &&& !has_text(json, "group_color"@) ==> i.group_color@ == "#00AEEF"@
            &&& i.inviter_node_id is Some <==> has_text(json, "inviter_node_id"@)
            &&& i.inviter_node_id is Some ==> says(
                json,
                "inviter_node_id"@,
                i.inviter_node_id->0@,
            )
        },
{
}

/// The group of an accepted invitation is stored as the invitation says, shown as it is stored, and
/// joined by way of the one who invited. Where the group is already here nothing happens.
pub proof fn an_accepted_invitation_gives_its_group(
    invite: Invite,
    already_member: bool,
    now: i64,
    r: Option<Join>,
    t: Tables,
)
    requires
        call_ensures(invite::accept_invite, (invite, already_member, now), r),
    ensures
        r is Some <==> !already_member,
        r matches Some(join) ==> ({
            let after = join.statement.apply(t);
            let g = after.groups[invite.group_id@];
            &&& after == Tables { groups: after.groups, ..t }
            &&& !t.groups.dom().contains(invite.group_id@) ==> {
                &&& after.groups.dom().contains(invite.group_id@)
                &&& g.id@ == invite.group_id@
                &&& g.name@ == invite.group_name@
                &&& g.icon@ == invite.group_icon@
                &&& g.color@ == invite.group_color@
                &&& g.created_at == now
                &&& join.event == SwiftEvent::Network(NetworkEvent::GroupCreated(g))
            }
            &&& join.command is JoinGroup
            &&& join.command->JoinGroup_group_id@ == invite.group_id@
            &&& join.command->JoinGroup_bootstrap_peer == invite.inviter_node_id
        }),
{
}

/// A group looks as it was asked for; what was not asked for is the usual look.
pub proof fn a_group_looks_as_asked(
    icon: Option<String>,
    color: Option<String>,
    r: (String, String),
)
    requires
        call_ensures(invite::group_look, (icon, color), r),
    ensures
        icon matches Some(i) ==> r.0@ == i@,
        icon is None ==> r.0@ == "folder.fill"@,
        color matches Some(c) ==> r.1@ == c@,
        color is None ==> r.1@ == "#00AEEF"@,
{
}

/// What discovery learns: a message of type "group_deleted" that tells of a deleted group names
/// that group, and one of type "groups_exchange" lists the groups under "local_groups", those that
/// are texts, in order. Any other message says nothing.
pub proof fn discovery_learns_what_messages_say(
    content: &str,
    message: Json,
    event: Option<NetworkEvent>,
    r: Discovery,
    s: Seq<char>,
)
    requires
        json::parsed_json(content@) == Some(message),
        call_ensures(discovery::parse_discovery, (content, event), r),
    ensures
        r is GroupDeleted <==> says(message, "msg_type"@, "group_deleted"@) && message.member(
            "event"@,
        ) is Some && event is Some && event->0 is GroupDeleted,
        r matches Discovery::GroupDeleted { id } ==> event == Some(
            NetworkEvent::GroupDeleted { id },
        ),
        r is Groups <==> says(message, "msg_type"@, "groups_exchange"@) && message.member(
            "local_groups"@,
        ) is Some && message.member("local_groups"@)->0 is Array,
        r matches Discovery::Groups { ids } ==> ({
            let items = message.member("local_groups"@)->0->Array_0@;
            &&& collections::texts(ids@).contains(s) <==> is_item(items, s)
            &&& (forall|i: int| 0 <= i < items.len() ==> (#[trigger] items[i]) is Text)
                ==> ids@.len() == items.len() && forall|i: int|
                0 <= i < items.len() ==> (#[trigger] ids@[i])@ == items[i]->Text_0@
        }),
{
    reveal_strlit("group_deleted");
    reveal_strlit("groups_exchange");
    assert("group_deleted"@.len() != "groups_exchange"@.len());
    if r is Groups {
        let items = message.member("local_groups"@)->0->Array_0@;
        let ids = r->Groups_ids@;
        lemma_strings(items, s);
        if forall|i: int| 0 <= i < items.len() ==> (#[trigger] items[i]) is Text {
            lemma_all_strings(items);
            let texts = collections::texts(ids);
            assert forall|i: int| 0 <= i < items.len() implies (#[trigger] ids[i])@
                == items[i]->Text_0@ by {
                assert(texts[i] == ids[i]@);
            }
        }
    }
}

/// Whether a text is among some items.
pub open spec fn is_item(items: Seq<Json>, s: Seq<char>) -> bool {
    exists|i: int| 0 <= i < items.len() && (#[trigger] items[i]) is Text && items[i]->Text_0@ == s
}

proof fn lemma_strings(items: Seq<Json>, s: Seq<char>)
    ensures
        discovery::strings_of(items).contains(s) <==> is_item(items, s),
    decreases items.len(),
{
    if items.len() > 0 {
        let rest = items.drop_last();
        let before = discovery::strings_of(rest);
        let after = discovery::strings_of(items);
        lemma_strings(rest, s);
        if is_item(rest, s) {
            let i = choose|i: int|
                0 <= i < rest.len() && (#[trigger] rest[i]) is Text && rest[i]->Text_0@ == s;
            assert(items[i] is Text);
            let k = choose|k: int| 0 <= k < before.len() && before[k] == s;
            assert(after[k] == s);
        }
        let last = items.len() - 1;
        if items[last] is Text && items[last]->Text_0@ == s {
            assert(after[after.len() - 1] == s);
        }
        if after.contains(s) {
            let k = choose|k: int| 0 <= k < after.len() && after[k] == s;
            if k < before.len() {
                assert(before[k] == s);
                let i = choose|i: int|
                    0 <= i < rest.len() && (#[trigger] rest[i]) is Text && rest[i]->Text_0@ == s;
                assert(items[i] is Text);
            } else {
                assert(items[last] is Text);
            }
        }
        if is_item(items, s) {
            let i = choose|i: int|
                0 <= i < items.len() && (#[trigger] items[i]) is Text && items[i]->Text_0@ == s;
            if i < rest.len() {
                assert(rest[i] is Text);
            }
        }
    }
}

proof fn lemma_all_strings(items: Seq<Json>)
    requires
        forall|i: int| 0 <= i < items.len() ==> (#[trigger] items[i]) is Text,
    ensures
        discovery::strings_of(items).len() == items.len(),
        forall|i: int|
            0 <= i < items.len() ==> #[trigger] discovery::strings_of(items)[i]
                == items[i]->Text_0@,
    decreases items.len(),
{
    if items.len() > 0 {
        let rest = items.drop_last();
        assert forall|i: int| 0 <= i < rest.len() implies (#[trigger] rest[i]) is Text by {
            assert(rest[i] == items[i]);
        }
        lemma_all_strings(rest);
        assert(items[items.len() - 1] is Text);
        assert forall|i: int| 0 <= i < items.len() implies #[trigger] discovery::strings_of(
            items,
        )[i] == items[i]->Text_0@ by {
            if i < rest.len() {
                assert(discovery::strings_of(rest)[i] == rest[i]->Text_0@);
            }
        }
    }
}

} // verus!
