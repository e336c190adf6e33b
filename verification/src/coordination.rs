//! What the coordinator of the network does with what it is asked and what it learns.

use crate::actors::network_actor as actor;
use crate::actors::network_actor::{
    Action, DirectMessage, DiscoveryCommand, DiscoveryNetworkCmd, MessageOutcome, NetworkActor,
    NetworkCommand, PendingTransfer, ServableFile, SnapshotContent, SnapshotFrame, TopicCommand,
    TransferMsg, TransferReply,
};
use crate::actors::{ActorMessage, SystemCommand, TopicNetworkCmd};
use crate::collections;
use crate::hash;
use crate::model::{Group, NetworkEvent, SwiftEvent};
use vstd::prelude::*;
use vstd::string::*;

verus! {

/// Whether actions are one message to the actor of a group that runs, and none where it does not.
pub open spec fn reaches(
    state: NetworkActor,
    group: Option<String>,
    command: TopicCommand,
    actions: Seq<Action>,
) -> bool {
    &&& group is Some && state.topics@.contains(group->0@) ==> actions == seq![
        Action::ToTopic { group_id: group->0, message: ActorMessage::Domain(command) },
    ]
    &&& group is None || !state.topics@.contains(group->0@) ==> actions.len() == 0
}

/// A group that is joined gets an actor of its own, started with the peer that was named, where its
/// name could be read, and the bootstrap node. One that has its actor is asked for a snapshot and
/// announced. Nothing changes in what the coordinator knows.
pub proof fn joining_starts_an_actor(
    state: &mut NetworkActor,
    group_id: String,
    bootstrap_peer: Option<String>,
    named_key: Option<String>,
    bootstrap: Option<String>,
    group: Option<String>,
    pending: &Vec<PendingTransfer>,
    clock: &str,
    now: i64,
    r: Vec<Action>,
)
    requires
        call_ensures(
            NetworkActor::handle_network_command,
            (
                state,
                NetworkCommand::JoinGroup { group_id, bootstrap_peer },
                named_key,
                bootstrap,
                group,
                pending,
                clock,
                now,
            ),
            r,
        ),
    ensures
        *final(state) == *old(state),
        !old(state).topics@.contains(group_id@) ==> r@.len() == 1 && r@[0] is SpawnTopic
            && r@[0]->SpawnTopic_group_id@ == group_id@ && ({
            let peers = r@[0]->SpawnTopic_peers@;
            let named = bootstrap_peer is Some && named_key is Some;
            &&& named ==> peers.len() > 0 && peers[0] == named_key->0
            &&& bootstrap is Some && !(named && named_key->0@ == bootstrap->0@) ==> peers.len() > 0
                && peers.last() == bootstrap->0
            &&& peers.len() == (if named {
                1int
            } else {
                0
            }) + (if bootstrap is Some && !(named && named_key->0@ == bootstrap->0@) {
                1int
            } else {
                0
            })
        }),
        old(state).topics@.contains(group_id@) ==> ({
            &&& r@.len() == (if old(state).has_discovery {
                2int
            } else {
                1
            })
            &&& r@[0] == (Action::ToTopic {
                group_id,
                message: ActorMessage::Domain(TopicCommand::RequestSnapshot),
            })
            &&& old(state).has_discovery ==> r@[1] == Action::ToDiscovery(
                DiscoveryCommand::AnnounceGroup(group_id),
            )
        }),
{
}

/// Once the actor of a group was started it is asked for a snapshot, and the group is announced
/// either way, where discovery runs. The group then counts as running.
pub proof fn started_actors_are_welcomed(
    state: &NetworkActor,
    spawning: &mut NetworkActor,
    group_id: &String,
    spawned: bool,
    r: Vec<Action>,
    g: Seq<char>,
)
    requires
        call_ensures(NetworkActor::after_join, (state, group_id, spawned), r),
        call_ensures(NetworkActor::topic_spawned, (spawning, group_id), ()),
    ensures
        ({
            let asked = spawned && state.topics@.contains(group_id@);
            &&& r@.len() == (if asked {
                1int
            } else {
                0
            }) + (if state.has_discovery {
                1int
            } else {
                0
            })
            &&& asked ==> r@[0] == (Action::ToTopic {
                group_id: *group_id,
                message: ActorMessage::Domain(TopicCommand::RequestSnapshot),
            })
            &&& state.has_discovery ==> r@.last() == Action::ToDiscovery(
                DiscoveryCommand::AnnounceGroup(*group_id),
            )
        }),
        final(spawning).topics@.contains(g) <==> g == group_id@ || old(
            spawning,
        ).topics@.contains(g),
        final(spawning).peers_of(g) == old(spawning).peers_of(g),
        final(spawning).groups_needing_snapshot@ == old(spawning).groups_needing_snapshot@,
{
}

/// Events and downloads go to the actor of their group, direct messages to their peer with the text
/// and the time as given; nothing changes in what the coordinator knows.
pub proof fn commands_reach_their_actor(
    telling: &mut NetworkActor,
    fetching: &mut NetworkActor,
    opening: &mut NetworkActor,
    sending: &mut NetworkActor,
    named_key: Option<String>,
    bootstrap: Option<String>,
    group: Option<String>,
    pending: &Vec<PendingTransfer>,
    clock: &str,
    now: i64,
    group_id: String,
    event: NetworkEvent,
    file_id: String,
    hash_text: String,
    source_peer: String,
    resume_offset: u64,
    peer_id: String,
    workspace_id: String,
    message: String,
    parent_id: Option<String>,
    told: Vec<Action>,
    fetched: Vec<Action>,
    opened: Vec<Action>,
    sent: Vec<Action>,
)
    requires
        call_ensures(
            NetworkActor::handle_network_command,
            (
                telling,
                NetworkCommand::Broadcast { group_id, event },
                named_key,
                bootstrap,
                group,
                pending,
                clock,
                now,
            ),
            told,
        ),
        call_ensures(
            NetworkActor::handle_network_command,
            (
                fetching,
                NetworkCommand::RequestFileDownload {
                    file_id,
                    hash: hash_text,
                    source_peer,
                    resume_offset,
                },
                named_key,
                bootstrap,
                group,
                pending,
                clock,
                now,
            ),
            fetched,
        ),
        call_ensures(
            NetworkActor::handle_network_command,
            (
                opening,
                NetworkCommand::StartChatStream { peer_id, workspace_id },
                named_key,
                bootstrap,
                group,
                pending,
                clock,
                now,
            ),
            opened,
        ),
        call_ensures(
            NetworkActor::handle_network_command,
            (
                sending,
                NetworkCommand::SendDirectChat { peer_id, workspace_id, message, parent_id },
                named_key,
                bootstrap,
                group,
                pending,
                clock,
                now,
            ),
            sent,
        ),
    ensures
        *final(telling) == *old(telling),
        *final(fetching) == *old(fetching),
        *final(opening) == *old(opening),
        *final(sending) == *old(sending),
        reaches(*old(telling), Some(group_id), TopicCommand::Broadcast(event), told@),
        reaches(
            *old(fetching),
            group,
            TopicCommand::DownloadFile { file_id, hash: hash_text, source_peer, resume_offset },
            fetched@,
        ),
        opened@ == seq![Action::OpenStream { peer_id, workspace_id }],
        sent@.len() == 1,
        sent@[0] is SendMessage,
        sent@[0]->SendMessage_peer_id@ == peer_id@,
        ({
            let dm = sent@[0]->SendMessage_dm;
            &&& dm.id@ == hash::text_id("dm:"@ + peer_id@ + "-"@ + message@ + "-"@ + clock@)
            &&& dm.workspace_id == Some(workspace_id)
            &&& dm.message@ == message@
            &&& dm.parent_id == parent_id
            &&& dm.timestamp == now
            &&& dm.attachment is None
        }),
{
}

/// Leaving a group, or dissolving it, stops its actor, tells discovery, and forgets the group and
/// what it needed. Other groups and all peers stay.
pub proof fn leaving_stops_an_actor(
    state: &mut NetworkActor,
    cmd: NetworkCommand,
    id: String,
    named_key: Option<String>,
    bootstrap: Option<String>,
    group: Option<String>,
    pending: &Vec<PendingTransfer>,
    clock: &str,
    now: i64,
    r: Vec<Action>,
    g: Seq<char>,
)
    requires
        cmd == (NetworkCommand::LeaveGroup { id }) || cmd == (NetworkCommand::DissolveGroup { id }),
        call_ensures(
            NetworkActor::handle_network_command,
            (state, cmd, named_key, bootstrap, group, pending, clock, now),
            r,
        ),
    ensures
        final(state).topics@.contains(g) <==> g != id@ && old(state).topics@.contains(g),
        final(state).groups_needing_snapshot@.contains(g) <==> g != id@ && old(
            state,
        ).groups_needing_snapshot@.contains(g),
        final(state).peers@ == old(state).peers@,
        final(state).dm_streams@ == old(state).dm_streams@,
        ({
            let ran = old(state).topics@.contains(id@);
            &&& r@.len() == (if ran {
                1int
            } else {
                0
            }) + (if old(state).has_discovery {
                1int
            } else {
                0
            })
            &&& ran ==> r@[0] == (Action::ToTopic {
                group_id: id,
                message: ActorMessage::System(SystemCommand::PoisonPill),
            })
            &&& old(state).has_discovery ==> r@.last() == Action::ToDiscovery(
                DiscoveryCommand::LeaveGroup(id),
            )
        }),
{
}

/// A transfer that was under way goes on where it stopped, at the actor of its group, where that
/// runs; one more transfer adds its message behind the others, or nothing.
pub proof fn transfers_go_on_where_they_stopped(
    state: &mut NetworkActor,
    again: &mut NetworkActor,
    named_key: Option<String>,
    bootstrap: Option<String>,
    group: Option<String>,
    fewer: &Vec<PendingTransfer>,
    more: &Vec<PendingTransfer>,
    last: PendingTransfer,
    clock: &str,
    now: i64,
    r: Vec<Action>,
    s: Vec<Action>,
)
    requires
        more@ == fewer@.push(last),
        *old(again) == *old(state),
        call_ensures(
            NetworkActor::handle_network_command,
            (
                state,
                NetworkCommand::ResumePendingTransfers,
                named_key,
                bootstrap,
                group,
                fewer,
                clock,
                now,
            ),
            r,
        ),
        call_ensures(
            NetworkActor::handle_network_command,
            (
                again,
                NetworkCommand::ResumePendingTransfers,
                named_key,
                bootstrap,
                group,
                more,
                clock,
                now,
            ),
            s,
        ),
    ensures
        fewer@.len() == 0 ==> r@.len() == 0,
        last.group_id is None || !old(state).topics@.contains(last.group_id->0@) ==> s@ == r@,
        last.group_id is Some && old(state).topics@.contains(last.group_id->0@) ==> s@ == r@.push(
            Action::ToTopic {
                group_id: last.group_id->0,
                message: ActorMessage::Domain(
                    TopicCommand::DownloadFile {
                        file_id: last.file_id,
                        hash: last.hash,
                        source_peer: last.source_peer,
                        resume_offset: last.bytes_received,
                    },
                ),
            },
        ),
{
    assert(more@.drop_last() =~= fewer@);
}

/// A group needs a snapshot from when its actor says so until it says that it has one; a failed
/// attempt changes nothing. No other group is concerned.
pub proof fn groups_need_snapshots_until_they_have_them(
    state: &mut NetworkActor,
    cmd: TopicNetworkCmd,
    g: Seq<char>,
)
    requires
        call_ensures(NetworkActor::handle_topic_network_cmd, (state, cmd), ()),
    ensures
        ({
            let before = old(state).groups_needing_snapshot@;
            let after = final(state).groups_needing_snapshot@;
            &&& cmd is NeedSnapshot ==> (after.contains(g) <==> before.contains(g) || g
                == cmd->NeedSnapshot_group_id@)
            &&& cmd is SnapshotComplete ==> (after.contains(g) <==> before.contains(g) && g
                != cmd->SnapshotComplete_group_id@)
        }),
        cmd is SnapshotFailed ==> final(state).groups_needing_snapshot@ == old(
            state,
        ).groups_needing_snapshot@,
        final(state).topics@ == old(state).topics@,
        final(state).peers@ == old(state).peers@,
        final(state).dm_streams@ == old(state).dm_streams@,
{
}

/// A peer that discovery found for a group is among its peers afterwards, and the actor of the group
/// is told of it, where it runs; where it does not, nothing happens. The peers of other groups stay.
pub proof fn discovered_peers_join_their_group(
    state: &mut NetworkActor,
    group_id: String,
    peers: Vec<String>,
    r: Vec<Action>,
    g: Seq<char>,
    p: Seq<char>,
)
    requires
        call_ensures(
            NetworkActor::handle_discovery_cmd,
            (state, DiscoveryNetworkCmd::JoinPeersToTopic { group_id, peers }),
            r,
        ),
    ensures
        final(state).peers_of(g).contains(p) <==> old(state).peers_of(g).contains(p) || (g
            == group_id@ && old(state).topics@.contains(group_id@) && collections::texts(
            peers@,
        ).contains(p)),
        reaches(*old(state), Some(group_id), TopicCommand::JoinPeers(peers), r@),
        final(state).topics@ == old(state).topics@,
{
    if g != group_id@ && old(state).topics@.contains(group_id@) {
        assert(final(state).peers_of(g) == old(state).peers_of(g));
    }
}

/// A single peer joins in the same way; a group that is to exist gets an actor where it has none.
pub proof fn a_discovered_peer_joins_its_group(
    state: &mut NetworkActor,
    ensured: &mut NetworkActor,
    group_id: String,
    peer: String,
    r: Vec<Action>,
    s: Vec<Action>,
    g: Seq<char>,
    p: Seq<char>,
)
    requires
        call_ensures(
            NetworkActor::handle_discovery_cmd,
            (state, DiscoveryNetworkCmd::JoinPeerToTopic { group_id, peer }),
            r,
        ),
        call_ensures(
            NetworkActor::handle_discovery_cmd,
            (ensured, DiscoveryNetworkCmd::EnsureTopicExists { group_id }),
            s,
        ),
    ensures
        final(state).peers_of(g).contains(p) <==> old(state).peers_of(g).contains(p) || (g
            == group_id@ && p == peer@ && old(state).topics@.contains(group_id@)),
        old(state).topics@.contains(group_id@) ==> r@.len() == 1 && r@[0] is ToTopic
            && r@[0]->ToTopic_group_id == group_id && (r@[0]->ToTopic_message matches
            ActorMessage::Domain(TopicCommand::JoinPeers(told)) && told@ == seq![peer]),
        !old(state).topics@.contains(group_id@) ==> r@.len() == 0,
        *final(ensured) == *old(ensured),
        old(ensured).topics@.contains(group_id@) ==> s@.len() == 0,
        !old(ensured).topics@.contains(group_id@) ==> s@.len() == 1 && s@[0] is SpawnTopic
            && s@[0]->SpawnTopic_group_id == group_id && s@[0]->SpawnTopic_peers@.len() == 0,
{
    if g != group_id@ && old(state).topics@.contains(group_id@) {
        assert(final(state).peers_of(g) == old(state).peers_of(g));
    }
}

/// A direct message is stored and shown with its own identifier, text and time: as incoming from
/// the peer who sent it, or as sent to a peer, where it was handed over.
pub proof fn direct_messages_are_recorded_as_they_are(
    dm: DirectMessage,
    peer_id: &String,
    handed_over: bool,
    came: MessageOutcome,
    went: Option<MessageOutcome>,
)
    requires
        call_ensures(actor::message_received, (dm, peer_id), came),
        call_ensures(actor::message_sent, (dm, *peer_id, handed_over), went),
    ensures
        is_recorded(came, dm, peer_id@, true),
        went is Some <==> handed_over,
        went is Some ==> is_recorded(went->0, dm, peer_id@, false),
{
}

/// Whether a message is stored and shown as it is.
pub open spec fn is_recorded(
    o: MessageOutcome,
    dm: DirectMessage,
    peer_id: Seq<char>,
    is_incoming: bool,
) -> bool {
    &&& o.stored.id@ == dm.id@
    &&& o.stored.peer_id@ == peer_id
    &&& o.stored.message@ == dm.message@
    &&& o.stored.timestamp == dm.timestamp
    &&& o.stored.is_incoming == is_incoming
    &&& o.event == (SwiftEvent::DirectMessageReceived {
        id: o.stored.id,
        peer_id: o.stored.peer_id,
        message: o.stored.message,
        timestamp: o.stored.timestamp,
        is_incoming,
    })
}

/// A request for a file is served with the file's own name and size, from where it was asked for to
/// the end, and closed with what was asked for. A file that is not here is refused by its
/// identifier, and what is no request is not answered.
pub proof fn requested_files_are_served(
    file_id: String,
    hash_text: String,
    offset: u64,
    file: Option<ServableFile>,
    r: TransferReply,
    other: TransferMsg,
    s: TransferReply,
)
    requires
        call_ensures(
            actor::serve_file,
            (TransferMsg::Request { file_id, hash: hash_text, offset }, file),
            r,
        ),
        file is Some ==> offset <= (file->0).total_size,
        !(other is Request),
        call_ensures(actor::serve_file, (other, file), s),
    ensures
        s is Silence,
        r is Serve <==> file is Some && (file->0).local_path@.len() > 0,
        !(r is Serve) ==> r == TransferReply::Refuse(TransferMsg::NotFound { file_id }),
        r matches TransferReply::Serve { header, local_path, offset: from, complete } ==> {
            &&& local_path == (file->0).local_path
            &&& from == offset
            &&& complete == (TransferMsg::Complete { file_id, hash: hash_text })
            &&& header matches TransferMsg::Header {
                file_id: f,
                file_name,
                total_size,
                hash: h,
                byte_offset,
                byte_length,
            }
            &&& f == file_id
            &&& file_name == (file->0).name
            &&& total_size == (file->0).total_size
            &&& h == hash_text
            &&& byte_offset == offset
            &&& byte_offset + byte_length == total_size
        },
{
}

/// A snapshot is sent in four frames: the group with its workspaces and boards, then elements and
/// cells, then chats, files, integrations and metadata, then the end. A group that is not here has
/// none.
pub proof fn snapshots_are_sent_in_order(
    group: Option<Group>,
    content: SnapshotContent,
    r: Vec<SnapshotFrame>,
)
    requires
        call_ensures(actor::snapshot_frames, (group, content), r),
    ensures
        group is None ==> r@.len() == 0,
        group is Some ==> {
            &&& r@.len() == 4
            &&& r@[0] matches SnapshotFrame::Structure { group: g, workspaces, boards }
                && Some(g) == group && workspaces == content.workspaces && boards == content.boards
            &&& r@[1] matches SnapshotFrame::Content { elements, cells } && elements
                == content.elements && cells == content.cells
            &&& r@[2] matches SnapshotFrame::Metadata { chats, files, integrations, board_metadata }
                && chats == content.chats && files == content.files && integrations
                == content.integrations && board_metadata == content.board_metadata
            &&& r@[3] is Complete
        },
{
}

/// A stream is open from when it was opened until it is closed, and one has to be opened exactly
/// where there is none.
pub proof fn message_streams_open_and_close(
    opened: &mut NetworkActor,
    closed: &mut NetworkActor,
    state: &NetworkActor,
    peer_id: &String,
    name: &str,
    over: SwiftEvent,
    needed: bool,
    p: Seq<char>,
)
    requires
        call_ensures(NetworkActor::stream_opened, (opened, peer_id), ()),
        call_ensures(NetworkActor::stream_closed, (closed, *peer_id), over),
        call_ensures(NetworkActor::needs_stream, (state, name), needed),
    ensures
        final(opened).dm_streams@.contains(p) <==> p == peer_id@ || old(
            opened,
        ).dm_streams@.contains(p),
        final(closed).dm_streams@.contains(p) <==> p != peer_id@ && old(
            closed,
        ).dm_streams@.contains(p),
        over == (SwiftEvent::ChatStreamClosed { peer_id: *peer_id }),
        needed <==> !state.dm_streams@.contains(name@),
        final(opened).topics@ == old(opened).topics@,
        final(closed).topics@ == old(closed).topics@,
{
}

/// The profile of this node goes to the actor of every group that runs, and to nobody else.
pub proof fn profiles_go_to_every_group(
    state: &NetworkActor,
    display_name: String,
    avatar_hash: Option<String>,
    r: Vec<Action>,
    g: Seq<char>,
)
    requires
        call_ensures(
            NetworkActor::broadcast_profile_to_all_groups,
            (state, Some((display_name, avatar_hash))),
            r,
        ),
    ensures
        state.topics@.contains(g) <==> exists|i: int|
            0 <= i < r@.len() && tells_profile(
                *state,
                #[trigger] r@[i],
                g,
                display_name,
                avatar_hash,
            ),
        forall|i: int|
            0 <= i < r@.len() ==> (#[trigger] r@[i]) is ToTopic && tells_profile(
                *state,
                r@[i],
                r@[i]->ToTopic_group_id@,
                display_name,
                avatar_hash,
            ),
{
    let groups = choose|groups: Seq<String>|
        {
            &&& collections::texts(groups).no_duplicates()
            &&& collections::texts(groups).to_set() == state.topics@
            &&& r@ == #[trigger] state.profile_messages(groups, display_name, avatar_hash)
        };
    let texts = collections::texts(groups);
    if state.topics@.contains(g) {
        assert(texts.to_set().contains(g));
        let i = choose|i: int| 0 <= i < texts.len() && texts[i] == g;
        assert(groups[i]@ == g);
        assert(tells_profile(*state, r@[i], g, display_name, avatar_hash));
    }
    if exists|i: int|
        0 <= i < r@.len() && tells_profile(
            *state,
            #[trigger] r@[i],
            g,
            display_name,
            avatar_hash,
        ) {
        let i = choose|i: int|
            0 <= i < r@.len() && tells_profile(
                *state,
                #[trigger] r@[i],
                g,
                display_name,
                avatar_hash,
            );
        assert(texts[i] == groups[i]@);
        assert(texts.to_set().contains(texts[i]));
    }
}

/// Whether an action tells this node's profile to a group.
pub open spec fn tells_profile(
    state: NetworkActor,
    action: Action,
    g: Seq<char>,
    display_name: String,
    avatar_hash: Option<String>,
) -> bool {
    &&& action is ToTopic
    &&& action->ToTopic_group_id@ == g
    &&& action->ToTopic_message == ActorMessage::Domain(
        TopicCommand::Broadcast(
            NetworkEvent::ProfileUpdated { node_id: state.node_id, display_name, avatar_hash },
        ),
    )
}

} // verus!
