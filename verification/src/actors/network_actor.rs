//! The coordinator: it routes commands to the actors of groups, to discovery and to direct message
//! streams, and answers file and snapshot requests.

use crate::actors::{ActorMessage, SystemCommand, TopicNetworkCmd};
use crate::collections;
use crate::collections::{TextMap, TextSet};
use crate::ids;
use crate::model::{
    BoardMetadata, ChatDTO, FileDTO, Group, NetworkEvent, SwiftEvent, WhiteboardDTO, Workspace,
};
use crate::snapshot::IntegrationBindingDTO;
use crate::tables::{CellRecord, ElementRecord};
use crate::text::str_eq;
use vstd::prelude::*;
use vstd::string::*;

verus! {

/// The protocol name of file transfers.
pub const FILE_TRANSFER_ALPN: &'static str = "cyan-file-v2";

/// The protocol name of snapshots.
pub const SNAPSHOT_ALPN: &'static str = "cyan-snapshot-v1";

/// The protocol name of direct messages.
pub const DM_ALPN: &'static str = "cyan-dm-v1";

/// A direct message on the wire.
#[derive(Debug, PartialEq, Eq)]
pub struct DirectMessage {
    pub id: String,
    pub workspace_id: Option<String>,
    pub message: String,
    pub parent_id: Option<String>,
    pub timestamp: i64,
    pub attachment: Option<DmAttachment>,
}

/// A file that a direct message points to.
#[derive(Debug, PartialEq, Eq)]
pub struct DmAttachment {
    pub file_id: String,
    pub name: String,
    pub hash: String,
    pub size: u64,
}

/// A direct message as it is stored.
#[derive(Debug, PartialEq, Eq)]
pub struct StoredMessage {
    pub id: String,
    pub peer_id: String,
    pub message: String,
    pub timestamp: i64,
    pub is_incoming: bool,
}

/// What the application asks of the coordinator.
#[derive(Debug, PartialEq, Eq)]
pub enum NetworkCommand {
    JoinGroup { group_id: String, bootstrap_peer: Option<String> },
    Broadcast { group_id: String, event: NetworkEvent },
    /// Answered by the actor of the group.
    RequestSnapshot { from_peer: String },
    RequestFileDownload { file_id: String, hash: String, source_peer: String, resume_offset: u64 },
    StartChatStream { peer_id: String, workspace_id: String },
    SendDirectChat {
        peer_id: String,
        workspace_id: String,
        message: String,
        parent_id: Option<String>,
    },
    DissolveGroup { id: String },
    LeaveGroup { id: String },
    DissolveWorkspace { id: String, group_id: String },
    LeaveWorkspace { id: String },
    DissolveBoard { id: String, group_id: String },
    LeaveBoard { id: String },
    ResumePendingTransfers,
    /// Handled elsewhere.
    UploadToGroup { group_id: String, path: String },
    /// Handled elsewhere.
    UploadToWorkspace { workspace_id: String, path: String },
    /// Handled elsewhere.
    DeleteChat { id: String },
}

/// What the coordinator asks of the actor of a group.
#[derive(Debug, PartialEq, Eq)]
pub enum TopicCommand {
    Broadcast(NetworkEvent),
    RequestSnapshot,
    DownloadFile { file_id: String, hash: String, source_peer: String, resume_offset: u64 },
    JoinPeers(Vec<String>),
}

/// What the coordinator asks of the discovery actor.
#[derive(Debug, PartialEq, Eq)]
pub enum DiscoveryCommand {
    AnnounceGroup(String),
    LeaveGroup(String),
}

/// What the discovery actor asks of the coordinator.
#[derive(Debug, PartialEq, Eq)]
pub enum DiscoveryNetworkCmd {
    JoinPeerToTopic { group_id: String, peer: String },
    JoinPeersToTopic { group_id: String, peers: Vec<String> },
    EnsureTopicExists { group_id: String },
    PeerDiscovered { peer_id: String, groups: Vec<String> },
}

/// Something the coordinator does.
#[derive(Debug, PartialEq, Eq)]
pub enum Action {
    /// Send a message to the actor of a group.
    ToTopic { group_id: String, message: ActorMessage<TopicCommand> },
    /// Send a message to the discovery actor.
    ToDiscovery(DiscoveryCommand),
    /// Start the actor of a group with peers to connect to.
    SpawnTopic { group_id: String, peers: Vec<String> },
    /// Use the direct message stream with a peer, opening one where there is none, and then report
    /// that it is ready for a workspace.
    OpenStream { peer_id: String, workspace_id: String },
    /// Use the direct message stream with a peer, opening one where there is none, and then send.
    SendMessage { peer_id: String, dm: DirectMessage },
}

/// A transfer that was under way: the file, its hash, its source and how much has arrived, with
/// the group that the file belongs to.
pub struct PendingTransfer {
    pub file_id: String,
    pub hash: String,
    pub source_peer: String,
    pub bytes_received: u64,
    pub group_id: Option<String>,
}

/// What the coordinator knows.
#[derive(Debug)]
pub struct NetworkActor {
    pub node_id: String,
    /// Whether the discovery actor is running.
    pub has_discovery: bool,
    /// The groups whose actor is running.
    pub topics: TextSet,
    /// The peers with a direct message stream.
    pub dm_streams: TextSet,
    /// The peers of each group.
    pub peers: TextMap<TextSet>,
    pub groups_needing_snapshot: TextSet,
}

/// The peer that joining a group uses of one that was named: its key, where the name can be read as
/// one. `key` is what the name was read as, in the form in which every key is written.
pub open spec fn usable_peer(named: Option<String>, key: Option<String>) -> Option<String> {
    if named is Some {
        key
    } else {
        None
    }
}

/// Picks the peer that joining a group uses.
pub fn use_peer(named: &Option<String>, key: Option<String>) -> (r: Option<String>)
    ensures
        r == usable_peer(*named, key),
{
    if named.is_some() {
        key
    } else {
        None
    }
}

/// The peers to start a group with: the one that was named, where its name is a key, and the
/// bootstrap node, unless that is the same.
pub open spec fn initial_peers(named: Option<String>, bootstrap: Option<String>) -> Seq<String> {
    match (named, bootstrap) {
        (Some(n), Some(b)) => if n@ == b@ {
            seq![n]
        } else {
            seq![n, b]
        },
        (Some(n), None) => seq![n],
        (None, Some(b)) => seq![b],
        (None, None) => Seq::empty(),
    }
}

/// The message that continues a transfer.
pub open spec fn resume(p: PendingTransfer) -> Action {
    Action::ToTopic {
        group_id: p.group_id->0,
        message: ActorMessage::Domain(
            TopicCommand::DownloadFile {
                file_id: p.file_id,
                hash: p.hash,
                source_peer: p.source_peer,
                resume_offset: p.bytes_received,
            },
        ),
    }
}

impl NetworkActor {
    /// Every collection is well formed.
    pub open spec fn wf(&self) -> bool {
        &&& self.topics.wf()
        &&& self.dm_streams.wf()
        &&& self.peers.wf()
        &&& self.groups_needing_snapshot.wf()
        &&& forall|g: Seq<char>|
            self.peers@.dom().contains(g) ==> (#[trigger] self.peers@[g]).wf()
    }

    /// The peers of a group.
    pub open spec fn peers_of(&self, group_id: Seq<char>) -> Set<Seq<char>> {
        if self.peers@.dom().contains(group_id) {
            self.peers@[group_id]@
        } else {
            Set::empty()
        }
    }

    /// Nothing changed but, perhaps, which groups need a snapshot.
    pub open spec fn same_but_needs(&self, before: &NetworkActor) -> bool {
        &&& self.node_id == before.node_id
        &&& self.has_discovery == before.has_discovery
        &&& self.topics == before.topics
        &&& self.dm_streams == before.dm_streams
        &&& self.peers == before.peers
    }

    /// A coordinator that runs nothing yet.
    pub fn new(node_id: String) -> (r: Self)
        ensures
            r.wf(),
            r.node_id == node_id,
            !r.has_discovery,
            r.topics@ == Set::<Seq<char>>::empty(),
            r.dm_streams@ == Set::<Seq<char>>::empty(),
            r.peers@ == Map::<Seq<char>, TextSet>::empty(),
            r.groups_needing_snapshot@ == Set::<Seq<char>>::empty(),
    {
        NetworkActor {
            node_id,
            has_discovery: false,
            topics: TextSet::new(),
            dm_streams: TextSet::new(),
            peers: TextMap::new(),
            groups_needing_snapshot: TextSet::new(),
        }
    }

    /// Takes note of what the actor of a group says about its snapshot. A failed download stays
    /// needed.
    pub fn handle_topic_network_cmd(&mut self, cmd: TopicNetworkCmd)
        requires
            old(self).wf(),
        ensures
            final(self).wf(),
            final(self).same_but_needs(old(self)),
            final(self).groups_needing_snapshot@ == match cmd {
                TopicNetworkCmd::NeedSnapshot { group_id } =>
                    old(self).groups_needing_snapshot@.insert(group_id@),
                TopicNetworkCmd::SnapshotComplete { group_id } =>
                    old(self).groups_needing_snapshot@.remove(group_id@),
                TopicNetworkCmd::SnapshotFailed { .. } => old(self).groups_needing_snapshot@,
            },
    {
        match cmd {
            TopicNetworkCmd::NeedSnapshot { group_id } => {
                self.groups_needing_snapshot.insert(group_id);
            },
            TopicNetworkCmd::SnapshotComplete { group_id } => {
                self.groups_needing_snapshot.remove(group_id.as_str());
            },
            TopicNetworkCmd::SnapshotFailed { .. } => {},
        }
    }

    /// Which peers to start the actor of a group with; `None` where it is running already. `named` and
    /// `bootstrap` are keys in the form in which every key is written, so that two are the same key
    /// if they are the same text.
    pub fn plan_join(
        &self,
        group_id: &String,
        named: Option<String>,
        bootstrap: Option<String>,
    ) -> (r: Option<Action>)
        requires
            self.wf(),
        ensures
            if self.topics@.contains(group_id@) {
                r is None
            } else {
                &&& r matches Some(Action::SpawnTopic { group_id: g, peers })
                &&& g == group_id
                &&& peers@ == initial_peers(named, bootstrap)
            },
    {
        if self.topics.contains(group_id.as_str()) {
            return None;
        }
        let mut peers: Vec<String> = Vec::new();
        let mut add_bootstrap = true;
        match &named {
            Some(n) => {
                match &bootstrap {
                    Some(b) => {
                        add_bootstrap = !str_eq(n.as_str(), b.as_str());
                    },
                    None => {},
                }
                peers.push(n.clone());
            },
            None => {},
        }
        match bootstrap {
            Some(b) => {
                if add_bootstrap {
                    peers.push(b);
                }
            },
            None => {},
        }
        Some(Action::SpawnTopic { group_id: group_id.clone(), peers })
    }

    /// Takes note that the actor of a group was started.
    pub fn topic_spawned(&mut self, group_id: &String)
        requires
            old(self).wf(),
        ensures
            final(self).wf(),
            final(self).node_id == old(self).node_id,
            final(self).has_discovery == old(self).has_discovery,
            final(self).dm_streams == old(self).dm_streams,
            final(self).groups_needing_snapshot == old(self).groups_needing_snapshot,
            final(self).topics@ == old(self).topics@.insert(group_id@),
            final(self).peers@.dom() == old(self).peers@.dom().insert(group_id@),
            forall|g: Seq<char>| #[trigger] final(self).peers_of(g) == old(self).peers_of(g),
    {
        self.topics.insert(group_id.clone());
        if !self.peers.contains_key(group_id.as_str()) {
            self.peers.insert(group_id.clone(), TextSet::new());
        }
        assert(self.peers@.dom() =~= old(self).peers@.dom().insert(group_id@));
    }

    /// What follows the start of a group's actor: a running actor is asked for a snapshot, and
    /// discovery announces the group.
    pub open spec fn welcome(&self, group_id: String, spawned: bool) -> Seq<Action> {
        (if spawned && self.topics@.contains(group_id@) {
            seq![
                Action::ToTopic {
                    group_id,
                    message: ActorMessage::Domain(TopicCommand::RequestSnapshot),
                },
            ]
        } else {
            Seq::empty()
        }) + (if self.has_discovery {
            seq![Action::ToDiscovery(DiscoveryCommand::AnnounceGroup(group_id))]
        } else {
            Seq::empty()
        })
    }

    /// What follows the start of a group's actor, whether or not it succeeded.
    pub fn after_join(&self, group_id: &String, spawned: bool) -> (r: Vec<Action>)
        requires
            self.wf(),
        ensures
            r@ == self.welcome(*group_id, spawned),
    {
        let mut out: Vec<Action> = Vec::new();
        if spawned && self.topics.contains(group_id.as_str()) {
            out.push(
                Action::ToTopic {
                    group_id: group_id.clone(),
                    message: ActorMessage::Domain(TopicCommand::RequestSnapshot),
                },
            );
        }
        if self.has_discovery {
            out.push(Action::ToDiscovery(DiscoveryCommand::AnnounceGroup(group_id.clone())));
        }
        out
    }

    /// A message to the actor of a group, where it is running.
    pub open spec fn to_topic(&self, group: Option<String>, command: TopicCommand) -> Seq<Action> {
        if group is Some && self.topics@.contains(group->0@) {
            seq![
                Action::ToTopic { group_id: group->0, message: ActorMessage::Domain(command) },
            ]
        } else {
            Seq::empty()
        }
    }

    fn send_to_topic(&self, group: Option<String>, command: TopicCommand) -> (r: Vec<Action>)
        requires
            self.wf(),
        ensures
            r@ == self.to_topic(group, command),
    {
        let mut out: Vec<Action> = Vec::new();
        match group {
            Some(group_id) => {
                if self.topics.contains(group_id.as_str()) {
                    out.push(Action::ToTopic { group_id, message: ActorMessage::Domain(command) });
                }
            },
            None => {},
        }
        out
    }

    /// The transfers that can go on: those whose file belongs to a group with a running actor.
    pub open spec fn resumable(&self, pending: Seq<PendingTransfer>) -> Seq<Action>
        decreases pending.len(),
    {
        if pending.len() == 0 {
            Seq::empty()
        } else {
            let before = self.resumable(pending.drop_last());
            let last = pending.last();
            if last.group_id is Some && self.topics@.contains(last.group_id->0@) {
                before.push(resume(last))
            } else {
                before
            }
        }
    }

    fn resume_transfers(&self, pending: &Vec<PendingTransfer>) -> (r: Vec<Action>)
        requires
            self.wf(),
        ensures
            r@ == self.resumable(pending@),
    {
        let mut out: Vec<Action> = Vec::new();
        let mut i: usize = 0;
        while i < pending.len()
            invariant
                i <= pending@.len(),
                self.wf(),
                out@ == self.resumable(pending@.take(i as int)),
            decreases pending.len() - i,
        {
            assert(pending@.take(i + 1).drop_last() =~= pending@.take(i as int));
            let p = &pending[i];
            match &p.group_id {
                Some(group_id) => {
                    if self.topics.contains(group_id.as_str()) {
                        out.push(
                            Action::ToTopic {
                                group_id: group_id.clone(),
                                message: ActorMessage::Domain(
                                    TopicCommand::DownloadFile {
                                        file_id: p.file_id.clone(),
                                        hash: p.hash.clone(),
                                        source_peer: p.source_peer.clone(),
                                        resume_offset: p.bytes_received,
                                    },
                                ),
                            },
                        );
                    }
                },
                None => {},
            }
            i = i + 1;
        }
        assert(pending@.take(i as int) =~= pending@);
        out
    }

    /// What remains after this node is no longer in a group.
    pub open spec fn left_group(&self, before: &NetworkActor, id: String) -> bool {
        &&& self.node_id == before.node_id
        &&& self.has_discovery == before.has_discovery
        &&& self.dm_streams == before.dm_streams
        &&& self.peers == before.peers
        &&& self.topics@ == before.topics@.remove(id@)
        &&& self.groups_needing_snapshot@ == before.groups_needing_snapshot@.remove(id@)
    }

    /// What is sent when this node leaves a group: its actor, if it is running, is stopped, and
    /// discovery is told.
    pub open spec fn leaving(&self, id: String) -> Seq<Action> {
        (if self.topics@.contains(id@) {
            seq![
                Action::ToTopic {
                    group_id: id,
                    message: ActorMessage::System(SystemCommand::PoisonPill),
                },
            ]
        } else {
            Seq::empty()
        }) + (if self.has_discovery {
            seq![Action::ToDiscovery(DiscoveryCommand::LeaveGroup(id))]
        } else {
            Seq::empty()
        })
    }

    fn leave_group(&mut self, id: String) -> (r: Vec<Action>)
        requires
            old(self).wf(),
        ensures
            final(self).wf(),
            final(self).left_group(old(self), id),
            r@ == old(self).leaving(id),
    {
        let mut out: Vec<Action> = Vec::new();
        if self.topics.remove(id.as_str()) {
            out.push(
                Action::ToTopic {
                    group_id: id.clone(),
                    message: ActorMessage::System(SystemCommand::PoisonPill),
                },
            );
        }
        self.groups_needing_snapshot.remove(id.as_str());
        if self.has_discovery {
            out.push(Action::ToDiscovery(DiscoveryCommand::LeaveGroup(id)));
        }
        out
    }

    /// Whether a direct message is the one that a command sends.
    pub open spec fn message_of(
        dm: DirectMessage,
        peer_id: String,
        workspace_id: String,
        message: String,
        parent_id: Option<String>,
        clock: Seq<char>,
        now: i64,
    ) -> bool {
        &&& dm.id@ == ids::peer_message_id(peer_id@, message@, clock)
        &&& dm.workspace_id == Some(workspace_id)
        &&& dm.message == message
        &&& dm.parent_id == parent_id
        &&& dm.timestamp == now
        &&& dm.attachment is None
    }

    /// Handles a command. A group that is joined gets an actor, unless it has one; `after_join` says
    /// what follows once that was started. `named_key` is the key that a peer named for joining was
    /// read as, nothing where that is no key, and `bootstrap` the key of the bootstrap node, both in
    /// the form in which every key is written. `group` is the group of the file that the command
    /// names, and `pending` the transfers that were under way.
    pub fn handle_network_command(
        &mut self,
        cmd: NetworkCommand,
        named_key: Option<String>,
        bootstrap: Option<String>,
        group: Option<String>,
        pending: &Vec<PendingTransfer>,
        clock: &str,
        now: i64,
    ) -> (r: Vec<Action>)
        requires
            old(self).wf(),
        ensures
            final(self).wf(),
            match cmd {
                NetworkCommand::DissolveGroup { id } => final(self).left_group(old(self), id),
                NetworkCommand::LeaveGroup { id } => final(self).left_group(old(self), id),
                _ => *final(self) == *old(self),
            },
            match cmd {
                NetworkCommand::JoinGroup { group_id, bootstrap_peer } => if old(
                    self,
                ).topics@.contains(group_id@) {
                    r@ == old(self).welcome(group_id, true)
                } else {
                    &&& r@.len() == 1
                    &&& r@[0] matches Action::SpawnTopic { group_id: g, peers }
                    &&& g == group_id
                    &&& peers@ == initial_peers(usable_peer(bootstrap_peer, named_key), bootstrap)
                },
                NetworkCommand::Broadcast { group_id, event } => r@ == old(self).to_topic(
                    Some(group_id),
                    TopicCommand::Broadcast(event),
                ),
                NetworkCommand::RequestFileDownload { file_id, hash, source_peer, resume_offset } =>
                r@ == old(self).to_topic(
                    group,
                    TopicCommand::DownloadFile { file_id, hash, source_peer, resume_offset },
                ),
                NetworkCommand::StartChatStream { peer_id, workspace_id } => r@ == seq![
                    Action::OpenStream { peer_id, workspace_id },
                ],
                NetworkCommand::SendDirectChat { peer_id, workspace_id, message, parent_id } => {
                    &&& r@.len() == 1
                    &&& r@[0] matches Action::SendMessage { peer_id: p, dm }
                    &&& p == peer_id
                    &&& Self::message_of(
                        dm,
                        peer_id,
                        workspace_id,
                        message,
                        parent_id,
                        clock@,
                        now,
                    )
                },
                NetworkCommand::DissolveGroup { id } => r@ == old(self).leaving(id),
                NetworkCommand::LeaveGroup { id } => r@ == old(self).leaving(id),
                NetworkCommand::ResumePendingTransfers => r@ == old(self).resumable(pending@),
                _ => r@ == Seq::<Action>::empty(),
            },
    {
        match cmd {
            NetworkCommand::JoinGroup { group_id, bootstrap_peer } => match self.plan_join(
                &group_id,
                use_peer(&bootstrap_peer, named_key),
                bootstrap,
            ) {
                Some(action) => {
                    let mut out: Vec<Action> = Vec::new();
                    out.push(action);
                    out
                },
                None => self.after_join(&group_id, true),
            },
            NetworkCommand::Broadcast { group_id, event } => self.send_to_topic(
                Some(group_id),
                TopicCommand::Broadcast(event),
            ),
            NetworkCommand::RequestSnapshot { .. } => Vec::new(),
            NetworkCommand::RequestFileDownload { file_id, hash, source_peer, resume_offset } =>
            self.send_to_topic(
                group,
                TopicCommand::DownloadFile { file_id, hash, source_peer, resume_offset },
            ),
            NetworkCommand::StartChatStream { peer_id, workspace_id } => {
                let mut out: Vec<Action> = Vec::new();
                out.push(Action::OpenStream { peer_id, workspace_id });
                out
            },
            NetworkCommand::SendDirectChat { peer_id, workspace_id, message, parent_id } => {
                let dm = DirectMessage {
                    id: ids::new_peer_message_id(peer_id.as_str(), message.as_str(), clock),
                    workspace_id: Some(workspace_id),
                    message,
                    parent_id,
                    timestamp: now,
                    attachment: None,
                };
                let mut out: Vec<Action> = Vec::new();
                out.push(Action::SendMessage { peer_id, dm });
                out
            },
            NetworkCommand::DissolveGroup { id } => self.leave_group(id),
            NetworkCommand::LeaveGroup { id } => self.leave_group(id),
            NetworkCommand::DissolveWorkspace { .. } => Vec::new(),
            NetworkCommand::LeaveWorkspace { .. } => Vec::new(),
            NetworkCommand::DissolveBoard { .. } => Vec::new(),
            NetworkCommand::LeaveBoard { .. } => Vec::new(),
            NetworkCommand::ResumePendingTransfers => self.resume_transfers(pending),
            NetworkCommand::UploadToGroup { .. } => Vec::new(),
            NetworkCommand::UploadToWorkspace { .. } => Vec::new(),
            NetworkCommand::DeleteChat { .. } => Vec::new(),
        }
    }

    /// The peers of a group after some were added.
    pub open spec fn joined_peers(&self, before: &NetworkActor, group_id: Seq<char>, added: Set<Seq<char>>) -> bool {
        &&& self.node_id == before.node_id
        &&& self.has_discovery == before.has_discovery
        &&& self.topics == before.topics
        &&& self.dm_streams == before.dm_streams
        &&& self.groups_needing_snapshot == before.groups_needing_snapshot
        &&& self.peers_of(group_id) == before.peers_of(group_id).union(added)
        &&& forall|g: Seq<char>|
            g != group_id ==> #[trigger] self.peers_of(g) == before.peers_of(g)
    }

    /// Adds peers to those of a group and asks its actor to connect to them, where it is running.
    fn join_peers(&mut self, group_id: String, peers: Vec<String>) -> (r: Vec<Action>)
        requires
            old(self).wf(),
        ensures
            final(self).wf(),
            if old(self).topics@.contains(group_id@) {
                &&& final(self).joined_peers(
                    old(self),
                    group_id@,
                    collections::texts(peers@).to_set(),
                )
                &&& r@ == seq![
                    Action::ToTopic {
                        group_id,
                        message: ActorMessage::Domain(TopicCommand::JoinPeers(peers)),
                    },
                ]
            } else {
                *final(self) == *old(self) && r@ == Seq::<Action>::empty()
            },
    {
        let mut out: Vec<Action> = Vec::new();
        if !self.topics.contains(group_id.as_str()) {
            return out;
        }
        let mut set = match self.peers.remove(group_id.as_str()) {
            Some(set) => set,
            None => TextSet::new(),
        };
        let ghost start = set@;
        let ghost all = collections::texts(peers@);
        let mut i: usize = 0;
        assert(set@ =~= start.union(all.take(0).to_set()));
        while i < peers.len()
            invariant
                i <= peers@.len(),
                all == collections::texts(peers@),
                set.wf(),
                set@ == start.union(all.take(i as int).to_set()),
            decreases peers.len() - i,
        {
            set.insert(peers[i].clone());
            proof {
                let here = all[i as int];
                let a = all.take(i as int);
                let b = all.take(i + 1);
                assert(b =~= a.push(here));
                assert forall|x: Seq<char>| b.contains(x) <==> a.contains(x) || x == here by {
                    if a.contains(x) {
                        let j = choose|j: int| 0 <= j < a.len() && a[j] == x;
                        assert(b[j] == x);
                    }
                    if x == here {
                        assert(b[i as int] == x);
                    }
                }
                assert(set@ =~= start.union(b.to_set()));
            }
            i = i + 1;
        }
        assert(all.take(i as int) =~= all);
        self.peers.insert(group_id.clone(), set);
        out.push(
            Action::ToTopic {
                group_id,
                message: ActorMessage::Domain(TopicCommand::JoinPeers(peers)),
            },
        );
        out
    }

    /// Handles what discovery found. A peer that was only seen leads to nothing.
    pub fn handle_discovery_cmd(&mut self, cmd: DiscoveryNetworkCmd) -> (r: Vec<Action>)
        requires
            old(self).wf(),
        ensures
            final(self).wf(),
            match cmd {
                DiscoveryNetworkCmd::JoinPeerToTopic { group_id, peer } => if old(
                    self,
                ).topics@.contains(group_id@) {
                    &&& final(self).joined_peers(old(self), group_id@, set![peer@])
                    &&& r@.len() == 1
                    &&& r@[0] matches Action::ToTopic {
                        group_id: g,
                        message: ActorMessage::Domain(TopicCommand::JoinPeers(peers)),
                    } && g == group_id && peers@ == seq![peer]
                } else {
                    *final(self) == *old(self) && r@ == Seq::<Action>::empty()
                },
                DiscoveryNetworkCmd::JoinPeersToTopic { group_id, peers } => if old(
                    self,
                ).topics@.contains(group_id@) {
                    &&& final(self).joined_peers(
                        old(self),
                        group_id@,
                        collections::texts(peers@).to_set(),
                    )
                    &&& r@ == seq![
                        Action::ToTopic {
                            group_id,
                            message: ActorMessage::Domain(TopicCommand::JoinPeers(peers)),
                        },
                    ]
                } else {
                    *final(self) == *old(self) && r@ == Seq::<Action>::empty()
                },
                DiscoveryNetworkCmd::EnsureTopicExists { group_id } => {
                    &&& *final(self) == *old(self)
                    &&& if old(self).topics@.contains(group_id@) {
                        r@ == Seq::<Action>::empty()
                    } else {
                        r@.len() == 1 && (r@[0] matches Action::SpawnTopic { group_id: g, peers }
                            && g == group_id && peers@ == Seq::<String>::empty())
                    }
                },
                DiscoveryNetworkCmd::PeerDiscovered { .. } => *final(self) == *old(self) && r@
                    == Seq::<Action>::empty(),
            },
    {
        match cmd {
            DiscoveryNetworkCmd::JoinPeerToTopic { group_id, peer } => {
                let mut peers: Vec<String> = Vec::new();
                let ghost only = peer;
                peers.push(peer);
                proof {
                    assert(peers@ =~= seq![only]);
                    let t = collections::texts(peers@);
                    assert(t =~= seq![only@]);
                    assert(t[0] == only@);
                    assert(t.to_set() =~= set![only@]);
                }
                self.join_peers(group_id, peers)
            },
            DiscoveryNetworkCmd::JoinPeersToTopic { group_id, peers } => self.join_peers(
                group_id,
                peers,
            ),
            DiscoveryNetworkCmd::EnsureTopicExists { group_id } => {
                let mut out: Vec<Action> = Vec::new();
                if !self.topics.contains(group_id.as_str()) {
                    out.push(Action::SpawnTopic { group_id, peers: Vec::new() });
                }
                out
            },
            DiscoveryNetworkCmd::PeerDiscovered { .. } => Vec::new(),
        }
    }

    /// Whether a direct message stream with a peer has to be opened first.
    pub fn needs_stream(&self, peer_id: &str) -> (r: bool)
        ensures
            r == !self.dm_streams@.contains(peer_id@),
    {
        !self.dm_streams.contains(peer_id)
    }

    /// Takes note of an open direct message stream.
    pub fn stream_opened(&mut self, peer_id: &String)
        requires
            old(self).wf(),
        ensures
            final(self).wf(),
            final(self).node_id == old(self).node_id,
            final(self).has_discovery == old(self).has_discovery,
            final(self).topics == old(self).topics,
            final(self).peers == old(self).peers,
            final(self).groups_needing_snapshot == old(self).groups_needing_snapshot,
            final(self).dm_streams@ == old(self).dm_streams@.insert(peer_id@),
    {
        self.dm_streams.insert(peer_id.clone());
    }

    /// Takes note that a direct message stream which a peer opened has ended.
    pub fn stream_closed(&mut self, peer_id: String) -> (r: SwiftEvent)
        requires
            old(self).wf(),
        ensures
            final(self).wf(),
            final(self).node_id == old(self).node_id,
            final(self).has_discovery == old(self).has_discovery,
            final(self).topics == old(self).topics,
            final(self).peers == old(self).peers,
            final(self).groups_needing_snapshot == old(self).groups_needing_snapshot,
            final(self).dm_streams@ == old(self).dm_streams@.remove(peer_id@),
            r == (SwiftEvent::ChatStreamClosed { peer_id }),
    {
        self.dm_streams.remove(peer_id.as_str());
        SwiftEvent::ChatStreamClosed { peer_id }
    }

    /// Tells this node's profile, where there is one, to the actors of all groups.
    pub fn broadcast_profile_to_all_groups(&self, profile: Option<(String, Option<String>)>) -> (r:
        Vec<Action>)
        requires
            self.wf(),
        ensures
            match profile {
                None => r@ == Seq::<Action>::empty(),
                Some((display_name, avatar_hash)) => exists|groups: Seq<String>|
                    {
                        &&& collections::texts(groups).no_duplicates()
                        &&& collections::texts(groups).to_set() == self.topics@
                        &&& r@ == #[trigger] self.profile_messages(groups, display_name, avatar_hash)
                    },
            },
    {
        let mut out: Vec<Action> = Vec::new();
        match profile {
            None => out,
            Some((display_name, avatar_hash)) => {
                let groups = self.topics.list();
                let mut i: usize = 0;
                while i < groups.len()
                    invariant
                        i <= groups@.len(),
                        out@ == self.profile_messages(groups@, display_name, avatar_hash).take(
                            i as int,
                        ),
                    decreases groups.len() - i,
                {
                    out.push(
                        Action::ToTopic {
                            group_id: groups[i].clone(),
                            message: ActorMessage::Domain(
                                TopicCommand::Broadcast(
                                    NetworkEvent::ProfileUpdated {
                                        node_id: self.node_id.clone(),
                                        display_name: display_name.clone(),
                                        avatar_hash: avatar_hash.clone(),
                                    },
                                ),
                            ),
                        },
                    );
                    assert(out@ =~= self.profile_messages(
                        groups@,
                        display_name,
                        avatar_hash,
                    ).take(i + 1));
                    i = i + 1;
                }
                assert(out@ =~= self.profile_messages(groups@, display_name, avatar_hash));
                out
            },
        }
    }

    /// The messages that tell this node's profile to groups.
    pub open spec fn profile_messages(
        &self,
        groups: Seq<String>,
        display_name: String,
        avatar_hash: Option<String>,
    ) -> Seq<Action> {
        Seq::new(
            groups.len(),
            |i: int|
                Action::ToTopic {
                    group_id: groups[i],
                    message: ActorMessage::Domain(
                        TopicCommand::Broadcast(
                            NetworkEvent::ProfileUpdated {
                                node_id: self.node_id,
                                display_name,
                                avatar_hash,
                            },
                        ),
                    ),
                },
        )
    }
}

/// A group that was left can be joined again: its actor is started anew.
pub proof fn leaving_makes_room_to_join(before: NetworkActor, after: NetworkActor, id: String)
    requires
        after.left_group(&before, id),
    ensures
        !after.topics@.contains(id@),
        !after.groups_needing_snapshot@.contains(id@),
        forall|g: Seq<char>| g != id@ ==> after.topics@.contains(g) == before.topics@.contains(g),
{
}

/// What a message on a direct message stream leads to.
pub struct MessageOutcome {
    pub stored: StoredMessage,
    pub event: SwiftEvent,
}

/// The record of a direct message.
pub open spec fn stored_message(
    id: String,
    peer_id: String,
    message: String,
    timestamp: i64,
    is_incoming: bool,
) -> StoredMessage {
    StoredMessage { id, peer_id, message, timestamp, is_incoming }
}

/// The event that shows a direct message.
pub open spec fn shown_message(m: StoredMessage) -> SwiftEvent {
    SwiftEvent::DirectMessageReceived {
        id: m.id,
        peer_id: m.peer_id,
        message: m.message,
        timestamp: m.timestamp,
        is_incoming: m.is_incoming,
    }
}

fn record_message(id: String, peer_id: String, message: String, timestamp: i64, is_incoming: bool) -> (r:
    MessageOutcome)
    ensures
        r.stored == stored_message(id, peer_id, message, timestamp, is_incoming),
        r.event == shown_message(r.stored),
{
    let event = SwiftEvent::DirectMessageReceived {
        id: id.clone(),
        peer_id: peer_id.clone(),
        message: message.clone(),
        timestamp,
        is_incoming,
    };
    MessageOutcome { stored: StoredMessage { id, peer_id, message, timestamp, is_incoming }, event }
}

/// Records a message that came from a peer.
pub fn message_received(dm: DirectMessage, peer_id: &String) -> (r: MessageOutcome)
    ensures
        r.stored == stored_message(dm.id, *peer_id, dm.message, dm.timestamp, true),
        r.event == shown_message(r.stored),
{
    record_message(dm.id, peer_id.clone(), dm.message, dm.timestamp, true)
}

/// Records a message that was handed to a stream; one that was not leads to nothing.
pub fn message_sent(dm: DirectMessage, peer_id: String, handed_over: bool) -> (r: Option<
    MessageOutcome,
>)
    ensures
        r is Some <==> handed_over,
        r matches Some(o) ==> o.stored == stored_message(
            dm.id,
            peer_id,
            dm.message,
            dm.timestamp,
            false,
        ) && o.event == shown_message(o.stored),
{
    if handed_over {
        Some(record_message(dm.id, peer_id, dm.message, dm.timestamp, false))
    } else {
        None
    }
}

/// Messages of the file transfer protocol that supports resuming.
#[derive(Debug, PartialEq, Eq)]
pub enum TransferMsg {
    Request { file_id: String, hash: String, offset: u64 },
    Header {
        file_id: String,
        file_name: String,
        total_size: u64,
        hash: String,
        byte_offset: u64,
        byte_length: u64,
    },
    Complete { file_id: String, hash: String },
    NotFound { file_id: String },
}

/// A file that can be served: its name, where it is on disk and its size. The path is empty where
/// the content is not here.
#[derive(Debug, PartialEq, Eq)]
pub struct ServableFile {
    pub name: String,
    pub local_path: String,
    pub total_size: u64,
}

/// How a transfer request is answered.
#[derive(Debug, PartialEq, Eq)]
pub enum TransferReply {
    /// Nothing is sent.
    Silence,
    /// The file cannot be served.
    Refuse(TransferMsg),
    /// Send the header, then the file from an offset on, then the final message.
    Serve { header: TransferMsg, local_path: String, offset: u64, complete: TransferMsg },
}

/// The answer to a message of the transfer protocol. `file` is what was found for the identifier
/// and hash of a request.
pub open spec fn reply_to(msg: TransferMsg, file: Option<ServableFile>) -> TransferReply {
    match msg {
        TransferMsg::Request { file_id, hash, offset } => match file {
            Some(f) => if f.local_path@.len() == 0 {
                TransferReply::Refuse(TransferMsg::NotFound { file_id })
            } else {
                TransferReply::Serve {
                    header: TransferMsg::Header {
                        file_id,
                        file_name: f.name,
                        total_size: f.total_size,
                        hash,
                        byte_offset: offset,
                        byte_length: (f.total_size - offset) as u64,
                    },
                    local_path: f.local_path,
                    offset,
                    complete: TransferMsg::Complete { file_id, hash },
                }
            },
            None => TransferReply::Refuse(TransferMsg::NotFound { file_id }),
        },
        _ => TransferReply::Silence,
    }
}

/// Decides how to answer a transfer request. A request must not start behind the end of a file
/// that is here.
pub fn serve_file(msg: TransferMsg, file: Option<ServableFile>) -> (r: TransferReply)
    requires
        msg is Request && file is Some && file->0.local_path@.len() > 0 ==> msg->Request_offset
            <= file->0.total_size,
    ensures
        r == reply_to(msg, file),
{
    match msg {
        TransferMsg::Request { file_id, hash, offset } => match file {
            Some(f) => if f.local_path.as_str().is_empty() {
                TransferReply::Refuse(TransferMsg::NotFound { file_id })
            } else {
                let header = TransferMsg::Header {
                    file_id: file_id.clone(),
                    file_name: f.name,
                    total_size: f.total_size,
                    hash: hash.clone(),
                    byte_offset: offset,
                    byte_length: f.total_size - offset,
                };
                TransferReply::Serve {
                    header,
                    local_path: f.local_path,
                    offset,
                    complete: TransferMsg::Complete { file_id, hash },
                }
            },
            None => TransferReply::Refuse(TransferMsg::NotFound { file_id }),
        },
        _ => TransferReply::Silence,
    }
}

/// A transfer that is resumed at an offset delivers exactly what is left of the file.
pub proof fn resumed_transfer_covers_the_rest(msg: TransferMsg, file: ServableFile)
    requires
        msg is Request,
        msg->Request_offset <= file.total_size,
        file.local_path@.len() > 0,
    ensures
        reply_to(msg, Some(file)) matches TransferReply::Serve { header, .. } && header
            matches TransferMsg::Header { total_size, byte_offset, byte_length, .. } && byte_offset
            + byte_length == total_size,
{
}

/// The parts of a snapshot that is sent frame by frame.
pub enum SnapshotFrame {
    Structure { group: Group, workspaces: Vec<Workspace>, boards: Vec<WhiteboardDTO> },
    Content { elements: Vec<ElementRecord>, cells: Vec<CellRecord> },
    Metadata {
        chats: Vec<ChatDTO>,
        files: Vec<FileDTO>,
        integrations: Vec<IntegrationBindingDTO>,
        board_metadata: Vec<BoardMetadata>,
    },
    Complete,
}

/// What a snapshot holds besides the group itself.
pub struct SnapshotContent {
    pub workspaces: Vec<Workspace>,
    pub boards: Vec<WhiteboardDTO>,
    pub elements: Vec<ElementRecord>,
    pub cells: Vec<CellRecord>,
    pub chats: Vec<ChatDTO>,
    pub files: Vec<FileDTO>,
    pub integrations: Vec<IntegrationBindingDTO>,
    pub board_metadata: Vec<BoardMetadata>,
}

/// The frames of a snapshot, in the order in which they are sent: none for a group that is not
/// here.
pub fn snapshot_frames(group: Option<Group>, content: SnapshotContent) -> (r: Vec<SnapshotFrame>)
    ensures
        r@ == match group {
            None => Seq::empty(),
            Some(group) => seq![
                SnapshotFrame::Structure {
                    group,
                    workspaces: content.workspaces,
                    boards: content.boards,
                },
                SnapshotFrame::Content { elements: content.elements, cells: content.cells },
                SnapshotFrame::Metadata {
                    chats: content.chats,
                    files: content.files,
                    integrations: content.integrations,
                    board_metadata: content.board_metadata,
                },
                SnapshotFrame::Complete,
            ],
        },
{
    let mut out: Vec<SnapshotFrame> = Vec::new();
    match group {
        None => {},
        Some(group) => {
            out.push(
                SnapshotFrame::Structure {
                    group,
                    workspaces: content.workspaces,
                    boards: content.boards,
                },
            );
            out.push(
                SnapshotFrame::Content { elements: content.elements, cells: content.cells },
            );
            out.push(
                SnapshotFrame::Metadata {
                    chats: content.chats,
                    files: content.files,
                    integrations: content.integrations,
                    board_metadata: content.board_metadata,
                },
            );
            out.push(SnapshotFrame::Complete);
        },
    }
    out
}

} // verus!
