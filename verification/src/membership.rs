//! How a node keeps track of groups, topics and peers as it hears of them, and what it passes on.

use crate::collections;
use crate::command::GroupLookup;
use crate::hash;
use crate::model::{DirectChatOutbound, NetworkCommand, NetworkEvent, SwiftEvent};
use crate::network;
use crate::network::{EventOutcome, NetworkAction, NetworkState};
use vstd::prelude::*;
use vstd::string::*;
use vstd::utf8::*;

verus! {

/// Whether two states agree on everything but the peers.
pub open spec fn agree_but_on_peers(a: NetworkState, b: NetworkState) -> bool {
    &&& a.node_id == b.node_id
    &&& a.topics@ == b.topics@
    &&& a.groups@ == b.groups@
    &&& a.need_snapshot@ == b.need_snapshot@
    &&& a.chat_peers@ == b.chat_peers@
}

/// Whether two states know the same peers, streams and missing snapshots.
pub open spec fn agree_but_on_groups(a: NetworkState, b: NetworkState) -> bool {
    &&& a.node_id == b.node_id
    &&& a.need_snapshot@ == b.need_snapshot@
    &&& a.peers@ == b.peers@
    &&& a.chat_peers@ == b.chat_peers@
}

/// A peer that comes up in a group is among its peers from then on, until it goes down there. The
/// peers of other groups, and the other peers of the group, are as before.
pub proof fn peers_come_and_go(
    up: &mut NetworkState,
    down: &mut NetworkState,
    group_id: &String,
    peer_id: &String,
    joined: SwiftEvent,
    left: SwiftEvent,
    g: Seq<char>,
    p: Seq<char>,
)
    requires
        call_ensures(NetworkState::peer_joined, (up, group_id, peer_id), joined),
        call_ensures(NetworkState::peer_left, (down, group_id, peer_id), left),
    ensures
        final(up).peers_of(g).contains(p) <==> old(up).peers_of(g).contains(p) || (g == group_id@
            && p == peer_id@),
        final(down).peers_of(g).contains(p) <==> old(down).peers_of(g).contains(p) && !(g
            == group_id@ && p == peer_id@),
        agree_but_on_peers(*old(up), *final(up)),
        agree_but_on_peers(*old(down), *final(down)),
        joined == (SwiftEvent::PeerJoined { group_id: *group_id, peer_id: *peer_id }),
        left == (SwiftEvent::PeerLeft { group_id: *group_id, peer_id: *peer_id }),
{
    if g != group_id@ {
        assert(final(up).peers_of(g) == old(up).peers_of(g));
        assert(final(down).peers_of(g) == old(down).peers_of(g));
    }
}

/// Every event of a peer is shown. A group whose deletion took effect is forgotten, and that is
/// shown first; no other event changes which groups and topics are known. A snapshot is fetched
/// where it is offered by another node, is still missing and the offer names a node.
pub proof fn events_of_peers_are_shown(
    state: &mut NetworkState,
    event: NetworkEvent,
    touched: bool,
    source_is_key: bool,
    r: EventOutcome,
    g: Seq<char>,
)
    requires
        call_ensures(NetworkState::receive, (state, event, touched, source_is_key), r),
    ensures
        r.events@.len() > 0,
        r.events@.last() == SwiftEvent::Network(event),
        ({
            let gone = touched && event is GroupDeleted;
            &&& r.events@.len() == (if gone {
                2int
            } else {
                1
            })
            &&& gone ==> r.events@[0] == (SwiftEvent::GroupDeleted { id: event->GroupDeleted_id })
            &&& final(state).topics@.contains(g) <==> old(state).topics@.contains(g) && !(gone && g
                == event->GroupDeleted_id@)
            &&& final(state).groups@.contains(g) <==> old(state).groups@.contains(g) && !(gone && g
                == event->GroupDeleted_id@)
        }),
        agree_but_on_groups(*old(state), *final(state)),
        r.download is Some <==> {
            &&& event matches NetworkEvent::GroupSnapshotAvailable { source, group_id }
            &&& source@ != old(state).node_id@
            &&& old(state).need_snapshot@.dom().contains(group_id@)
            &&& old(state).need_snapshot@[group_id@]
            &&& source_is_key
        },
        r.download matches Some(from) ==> event == (NetworkEvent::GroupSnapshotAvailable {
            source: from.0,
            group_id: from.1,
        }),
{
}

/// A discovered group whose topic was joined needs a snapshot until one was stored; then it does
/// not, and no other group is concerned.
pub proof fn a_discovered_group_needs_one_snapshot(
    joined: &mut NetworkState,
    stored: &mut NetworkState,
    group_id: &String,
    g: Seq<char>,
)
    requires
        call_ensures(NetworkState::discovered_topic_joined, (joined, group_id), ()),
        call_ensures(NetworkState::snapshot_received, (stored, group_id), ()),
    ensures
        final(joined).needs(g) <==> g == group_id@ || old(joined).needs(g),
        final(joined).topics@.contains(g) <==> g == group_id@ || old(joined).topics@.contains(g),
        final(joined).groups@ == old(joined).groups@,
        final(joined).peers@ == old(joined).peers@,
        final(joined).chat_peers@ == old(joined).chat_peers@,
        final(stored).needs(g) <==> g != group_id@ && old(stored).needs(g),
        final(stored).topics@ == old(stored).topics@,
        final(stored).groups@ == old(stored).groups@,
        final(stored).peers@ == old(stored).peers@,
        final(stored).chat_peers@ == old(stored).chat_peers@,
{
}

/// Joining the topic of a group makes the group and its topic known; a group that is gone is
/// forgotten, topic and all. Nothing else changes.
pub proof fn groups_come_and_go(
    joined: &mut NetworkState,
    gone: &mut NetworkState,
    group_id: &String,
    r: SwiftEvent,
    g: Seq<char>,
)
    requires
        call_ensures(NetworkState::topic_joined, (joined, group_id), ()),
        call_ensures(NetworkState::group_gone, (gone, *group_id), r),
    ensures
        final(joined).topics@.contains(g) <==> g == group_id@ || old(joined).topics@.contains(g),
        final(joined).groups@.contains(g) <==> g == group_id@ || old(joined).groups@.contains(g),
        agree_but_on_groups(*old(joined), *final(joined)),
        final(gone).topics@.contains(g) <==> g != group_id@ && old(gone).topics@.contains(g),
        final(gone).groups@.contains(g) <==> g != group_id@ && old(gone).groups@.contains(g),
        agree_but_on_groups(*old(gone), *final(gone)),
        r == (SwiftEvent::GroupDeleted { id: *group_id }),
{
}

/// The groups that a node announces are those it loaded and those it heard of since. Of the groups
/// that a peer lists exactly those that were not known are new, each once.
pub proof fn groups_are_heard_of(
    loaded: &mut NetworkState,
    told: &mut NetworkState,
    group_ids: Vec<String>,
    listed: &Vec<String>,
    fresh: Vec<String>,
    g: Seq<char>,
)
    requires
        call_ensures(NetworkState::load_groups, (loaded, group_ids), ()),
        call_ensures(NetworkState::discover, (told, listed), fresh),
    ensures
        final(loaded).groups@.contains(g) <==> collections::texts(group_ids@).contains(g),
        final(loaded).topics@ == old(loaded).topics@,
        agree_but_on_groups(*old(loaded), *final(loaded)),
        final(told).groups@.contains(g) <==> old(told).groups@.contains(g) || collections::texts(
            listed@,
        ).contains(g),
        final(told).topics@ == old(told).topics@,
        agree_but_on_groups(*old(told), *final(told)),
        collections::texts(fresh@).contains(g) <==> collections::texts(listed@).contains(g)
            && !old(told).groups@.contains(g),
        collections::texts(fresh@).no_duplicates(),
{
    network::discovery_reports_a_group_once(old(told).groups@, collections::texts(listed@));
}

/// A stream to a peer is open after it was opened and until it is closed.
pub proof fn streams_open_and_close(
    opened: &mut NetworkState,
    closed: &mut NetworkState,
    peer_id: &String,
    workspace_id: String,
    ready: SwiftEvent,
    over: SwiftEvent,
    p: Seq<char>,
)
    requires
        call_ensures(NetworkState::chat_opened, (opened, peer_id, workspace_id), ready),
        call_ensures(NetworkState::chat_closed, (closed, *peer_id), over),
    ensures
        final(opened).chat_peers@.contains(p) <==> p == peer_id@ || old(
            opened,
        ).chat_peers@.contains(p),
        final(closed).chat_peers@.contains(p) <==> p != peer_id@ && old(
            closed,
        ).chat_peers@.contains(p),
        final(opened).topics@ == old(opened).topics@,
        final(opened).groups@ == old(opened).groups@,
        final(opened).peers@ == old(opened).peers@,
        final(opened).need_snapshot@ == old(opened).need_snapshot@,
        final(closed).topics@ == old(closed).topics@,
        final(closed).groups@ == old(closed).groups@,
        final(closed).peers@ == old(closed).peers@,
        final(closed).need_snapshot@ == old(closed).need_snapshot@,
        ready == (SwiftEvent::ChatStreamReady { peer_id: *peer_id, workspace_id }),
        over == (SwiftEvent::ChatStreamClosed { peer_id: *peer_id }),
{
}

/// A snapshot is asked for once for every group that needs one and whose topic is joined.
pub proof fn missing_snapshots_are_asked_for(
    state: &NetworkState,
    asked: Vec<String>,
    group_id: &str,
    needed: bool,
    from_peer: &str,
    is_key: bool,
    answered: bool,
)
    requires
        call_ensures(NetworkState::snapshot_requests, (state,), asked),
        call_ensures(NetworkState::needs_snapshot, (state, group_id), needed),
        call_ensures(NetworkState::answers_snapshot_request, (state, from_peer, is_key), answered),
    ensures
        collections::texts(asked@).contains(group_id@) <==> needed && state.topics@.contains(
            group_id@,
        ),
        collections::texts(asked@).no_duplicates(),
        needed <==> state.need_snapshot@.dom().contains(group_id@)
            && state.need_snapshot@[group_id@],
        answered <==> is_key && from_peer@ != state.node_id@,
{
}

/// What a command becomes on the network. A topic is subscribed to once, under the digest of the
/// group's own topic name. An event goes out on the topic of its group, and only where that is
/// joined; a direct message only where a stream to its peer is open.
pub proof fn commands_reach_the_network(
    state: &NetworkState,
    group: Option<String>,
    group_id: String,
    event: NetworkEvent,
    peer_id: String,
    workspace_id: String,
    message: String,
    parent_id: Option<String>,
    joining: NetworkAction,
    telling: NetworkAction,
    opening: NetworkAction,
    sending: NetworkAction,
    uploading: NetworkAction,
    placing: NetworkAction,
)
    requires
        call_ensures(
            NetworkState::plan,
            (state, NetworkCommand::JoinGroup { group_id }, group),
            joining,
        ),
        call_ensures(
            NetworkState::plan,
            (state, NetworkCommand::Broadcast { group_id, event }, group),
            telling,
        ),
        call_ensures(
            NetworkState::plan,
            (state, NetworkCommand::StartChatStream { peer_id, workspace_id }, group),
            opening,
        ),
        call_ensures(
            NetworkState::plan,
            (
                state,
                NetworkCommand::SendDirectChat { peer_id, workspace_id, message, parent_id },
                group,
            ),
            sending,
        ),
        call_ensures(
            NetworkState::plan,
            (state, NetworkCommand::UploadToGroup { group_id, path: message }, group),
            uploading,
        ),
        call_ensures(
            NetworkState::plan,
            (state, NetworkCommand::UploadToWorkspace { workspace_id, path: message }, group),
            placing,
        ),
    ensures
        state.topics@.contains(group_id@) ==> joining is Nothing,
        !state.topics@.contains(group_id@) ==> {
            &&& joining matches NetworkAction::Subscribe { group_id: g, topic }
            &&& g@ == group_id@
            &&& topic@ == hash::blake3_digest(encode_utf8("cyan/group/"@ + group_id@))
        },
        state.topics@.contains(group_id@) ==> telling == (NetworkAction::Publish {
            group_id,
            event,
        }),
        !state.topics@.contains(group_id@) ==> telling is Nothing,
        opening == (NetworkAction::OpenChat { peer_id, workspace_id }),
        state.chat_peers@.contains(peer_id@) ==> sending == (NetworkAction::Forward {
            peer_id,
            message: DirectChatOutbound { workspace_id, message, parent_id },
        }),
        !state.chat_peers@.contains(peer_id@) ==> sending is Nothing,
        uploading == (NetworkAction::UploadToGroup { group_id, path: message }),
        placing == (NetworkAction::UploadToWorkspace { workspace_id, path: message }),
{
}

/// A deletion goes out as the event that peers know it by, under its own identifier: that of a
/// group to all who discover groups, any other to the group it was in, where that was found and its
/// topic is joined.
pub proof fn deletions_reach_the_network(
    state: &NetworkState,
    group: Option<String>,
    id: String,
    gone_group: NetworkAction,
    gone_workspace: NetworkAction,
    gone_board: NetworkAction,
    gone_chat: NetworkAction,
)
    requires
        call_ensures(
            NetworkState::plan,
            (state, NetworkCommand::DeleteGroup { id }, group),
            gone_group,
        ),
        call_ensures(
            NetworkState::plan,
            (state, NetworkCommand::DeleteWorkspace { id }, group),
            gone_workspace,
        ),
        call_ensures(
            NetworkState::plan,
            (state, NetworkCommand::DeleteBoard { id }, group),
            gone_board,
        ),
        call_ensures(
            NetworkState::plan,
            (state, NetworkCommand::DeleteChat { id }, group),
            gone_chat,
        ),
    ensures
        gone_group == (NetworkAction::AnnounceDeletion {
            event: NetworkEvent::GroupDeleted { id },
        }),
        ({
            let heard = group is Some && state.topics@.contains(group->0@);
            &&& !heard ==> gone_workspace is Nothing && gone_board is Nothing && gone_chat is Nothing
            &&& heard ==> {
                &&& gone_workspace == (NetworkAction::Publish {
                    group_id: group->0,
                    event: NetworkEvent::WorkspaceDeleted { id },
                })
                &&& gone_board == (NetworkAction::Publish {
                    group_id: group->0,
                    event: NetworkEvent::BoardDeleted { id },
                })
                &&& gone_chat == (NetworkAction::Publish {
                    group_id: group->0,
                    event: NetworkEvent::ChatDeleted { id },
                })
            }
        }),
{
}

/// Whose group is looked up for a network command: that of the workspace, board or message that it
/// names.
pub proof fn network_commands_look_up_what_they_name(cmd: NetworkCommand, r: GroupLookup)
    requires
        call_ensures(network::lookup_for, (&cmd,), r),
    ensures
        cmd matches NetworkCommand::UploadToWorkspace { workspace_id, .. } ==> r == (
        GroupLookup::OfWorkspace { id: workspace_id }),
        cmd matches NetworkCommand::DeleteWorkspace { id } ==> r == (GroupLookup::OfWorkspace {
            id,
        }),
        cmd matches NetworkCommand::DeleteBoard { id } ==> r == (GroupLookup::OfBoard { id }),
        cmd matches NetworkCommand::DeleteChat { id } ==> r == (GroupLookup::OfChat { id }),
        cmd is JoinGroup || cmd is Broadcast || cmd is UploadToGroup || cmd is DeleteGroup
            || cmd is StartChatStream || cmd is SendDirectChat ==> r is Nobody,
{
}

/// How many peers of a group are up is how many are listed, and over all groups it is the sum, as
/// far as the count goes.
pub proof fn peers_are_counted_as_listed(
    state: &NetworkState,
    group_id: &str,
    listed: Vec<String>,
    count: i32,
)
    requires
        call_ensures(NetworkState::group_peers, (state, group_id), listed),
        call_ensures(NetworkState::group_peer_count, (state, group_id), count),
        listed@.len() <= i32::MAX,
    ensures
        count == listed@.len(),
        collections::texts(listed@).no_duplicates(),
        forall|p: Seq<char>|
            #![trigger collections::texts(listed@).contains(p)]
            collections::texts(listed@).contains(p) <==> state.peers_of(group_id@).contains(p),
{
    let texts = collections::texts(listed@);
    texts.unique_seq_to_set();
    assert(texts.len() == listed@.len());
    assert forall|p: Seq<char>|
        #![trigger texts.contains(p)]
        texts.contains(p) <==> state.peers_of(group_id@).contains(p) by {
        assert(texts.to_set().contains(p) <==> texts.contains(p));
    }
}

} // verus!
