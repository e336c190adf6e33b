//! The network side of a node: which groups and peers it knows, what it does on commands of the
//! application, and how groups are discovered.

use crate::collections;
use crate::collections::{TextMap, TextSet};
use crate::command::GroupLookup;
use crate::hash;
use crate::ids;
use crate::model::{DirectChatOutbound, NetworkCommand, NetworkEvent, SwiftEvent};
use crate::tables::{FileRecord, OnConflict, Statement};
use crate::text::str_eq;
use vstd::prelude::*;
use vstd::string::*;

verus! {

/// What a node knows about its network.
#[derive(Debug)]
pub struct NetworkState {
    pub node_id: String,
    /// The groups whose topic this node has joined.
    pub topics: TextSet,
    /// The groups this node announces.
    pub groups: TextSet,
    /// For groups found through discovery, whether a snapshot is still needed.
    pub need_snapshot: TextMap<bool>,
    /// The peers that are up, by group.
    pub peers: TextMap<TextSet>,
    /// The peers with an open direct chat stream.
    pub chat_peers: TextSet,
}

/// What became of an event that a peer sent.
pub struct EventOutcome {
    /// The peer to fetch a snapshot from, and of which group.
    pub download: Option<(String, String)>,
    /// What to show, in order.
    pub events: Vec<SwiftEvent>,
}

/// What a command asks of the network.
#[derive(Debug)]
pub enum NetworkAction {
    Nothing,
    /// Join the topic of a group.
    Subscribe { group_id: String, topic: [u8; 32] },
    /// Send an event on the topic of a group.
    Publish { group_id: String, event: NetworkEvent },
    /// Read a file and upload it into a group.
    UploadToGroup { group_id: String, path: String },
    /// Read a file and upload it into a workspace.
    UploadToWorkspace { workspace_id: String, path: String },
    /// Tell the deletion of a group on the discovery topic.
    AnnounceDeletion { event: NetworkEvent },
    /// Open a direct chat stream.
    OpenChat { peer_id: String, workspace_id: String },
    /// Hand a message to an open direct chat stream.
    Forward { peer_id: String, message: DirectChatOutbound },
}

/// The group that a network command has to be sent to is looked up first.
pub open spec fn network_lookup(cmd: NetworkCommand) -> GroupLookup {
    match cmd {
        NetworkCommand::UploadToWorkspace { workspace_id, .. } => GroupLookup::OfWorkspace {
            id: workspace_id,
        },
        NetworkCommand::DeleteWorkspace { id } => GroupLookup::OfWorkspace { id },
        NetworkCommand::DeleteBoard { id } => GroupLookup::OfBoard { id },
        NetworkCommand::DeleteChat { id } => GroupLookup::OfChat { id },
        _ => GroupLookup::Nobody,
    }
}

/// Whose group to look up for a network command.
pub fn lookup_for(cmd: &NetworkCommand) -> (r: GroupLookup)
    ensures
        r == network_lookup(*cmd),
{
    match cmd {
        NetworkCommand::UploadToWorkspace { workspace_id, .. } => GroupLookup::OfWorkspace {
            id: workspace_id.clone(),
        },
        NetworkCommand::DeleteWorkspace { id } => GroupLookup::OfWorkspace { id: id.clone() },
        NetworkCommand::DeleteBoard { id } => GroupLookup::OfBoard { id: id.clone() },
        NetworkCommand::DeleteChat { id } => GroupLookup::OfChat { id: id.clone() },
        _ => GroupLookup::Nobody,
    }
}

/// The event that tells a deletion within a group.
pub open spec fn deletion_event(cmd: NetworkCommand) -> Option<NetworkEvent> {
    match cmd {
        NetworkCommand::DeleteWorkspace { id } => Some(NetworkEvent::WorkspaceDeleted { id }),
        NetworkCommand::DeleteBoard { id } => Some(NetworkEvent::BoardDeleted { id }),
        NetworkCommand::DeleteChat { id } => Some(NetworkEvent::ChatDeleted { id }),
        _ => None,
    }
}

/// A file that was read for upload.
pub struct Upload {
    pub id: String,
    pub name: String,
    pub hash: String,
    pub statement: Statement,
    /// The event to send, and on the topic of which group.
    pub publish: Option<(String, NetworkEvent)>,
}

/// Sums the sizes of the sets that the peers of some groups make.
pub open spec fn peer_sum(peers: Map<Seq<char>, TextSet>, groups: Seq<Seq<char>>) -> nat
    decreases groups.len(),
{
    if groups.len() == 0 {
        0
    } else {
        peer_sum(peers, groups.drop_last()) + peers[groups.last()]@.len()
    }
}

impl NetworkState {
    /// Every collection is well formed.
    pub open spec fn wf(&self) -> bool {
        &&& self.topics.wf()
        &&& self.groups.wf()
        &&& self.need_snapshot.wf()
        &&& self.peers.wf()
        &&& self.chat_peers.wf()
        &&& forall|g: Seq<char>|
            self.peers@.dom().contains(g) ==> (#[trigger] self.peers@[g]).wf()
    }

    /// The peers of a group that are up.
    pub open spec fn peers_of(&self, group_id: Seq<char>) -> Set<Seq<char>> {
        if self.peers@.dom().contains(group_id) {
            self.peers@[group_id]@
        } else {
            Set::empty()
        }
    }

    /// Whether a snapshot of a group is still needed.
    pub open spec fn needs(&self, group_id: Seq<char>) -> bool {
        self.need_snapshot@.dom().contains(group_id) && self.need_snapshot@[group_id]
    }

    /// Everything but the peers is as in another state.
    pub open spec fn same_but_peers(&self, other: &NetworkState) -> bool {
        &&& self.node_id == other.node_id
        &&& self.topics == other.topics
        &&& self.groups == other.groups
        &&& self.need_snapshot == other.need_snapshot
        &&& self.chat_peers == other.chat_peers
    }

    /// This is another state after a peer came up in a group.
    pub open spec fn came_up(&self, before: &NetworkState, group_id: Seq<char>, peer: Seq<char>) -> bool {
        &&& self.same_but_peers(before)
        &&& self.peers_of(group_id) == before.peers_of(group_id).insert(peer)
        &&& forall|g: Seq<char>|
            g != group_id ==> #[trigger] self.peers_of(g) == before.peers_of(g)
    }

    /// This is another state after a peer went down in a group.
    pub open spec fn went_down(&self, before: &NetworkState, group_id: Seq<char>, peer: Seq<char>) -> bool {
        &&& self.same_but_peers(before)
        &&& self.peers_of(group_id) == before.peers_of(group_id).remove(peer)
        &&& forall|g: Seq<char>|
            g != group_id ==> #[trigger] self.peers_of(g) == before.peers_of(g)
    }

    /// A node that knows nobody yet.
    pub fn new(node_id: String) -> (r: Self)
        ensures
            r.wf(),
            r.node_id == node_id,
            r.topics@ == Set::<Seq<char>>::empty(),
            r.groups@ == Set::<Seq<char>>::empty(),
            r.need_snapshot@ == Map::<Seq<char>, bool>::empty(),
            r.peers@ == Map::<Seq<char>, TextSet>::empty(),
            r.chat_peers@ == Set::<Seq<char>>::empty(),
    {
        NetworkState {
            node_id,
            topics: TextSet::new(),
            groups: TextSet::new(),
            need_snapshot: TextMap::new(),
            peers: TextMap::new(),
            chat_peers: TextSet::new(),
        }
    }

    /// Takes note of a peer that came up in a group.
    pub fn peer_joined(&mut self, group_id: &String, peer_id: &String) -> (r: SwiftEvent)
        requires
            old(self).wf(),
        ensures
            final(self).wf(),
            final(self).came_up(old(self), group_id@, peer_id@),
            final(self).peers@.dom() == old(self).peers@.dom().insert(group_id@),
            r == (SwiftEvent::PeerJoined { group_id: *group_id, peer_id: *peer_id }),
    {
        let mut set = match self.peers.remove(group_id.as_str()) {
            Some(set) => set,
            None => TextSet::new(),
        };
        set.insert(peer_id.clone());
        self.peers.insert(group_id.clone(), set);
        SwiftEvent::PeerJoined { group_id: group_id.clone(), peer_id: peer_id.clone() }
    }

    /// Takes note of a peer that went down in a group.
    pub fn peer_left(&mut self, group_id: &String, peer_id: &String) -> (r: SwiftEvent)
        requires
            old(self).wf(),
        ensures
            final(self).wf(),
            final(self).went_down(old(self), group_id@, peer_id@),
            final(self).peers@.dom() == old(self).peers@.dom(),
            r == (SwiftEvent::PeerLeft { group_id: *group_id, peer_id: *peer_id }),
    {
        match self.peers.remove(group_id.as_str()) {
            Some(mut set) => {
                set.remove(peer_id.as_str());
                self.peers.insert(group_id.clone(), set);
                assert(self.peers@.dom() =~= old(self).peers@.dom());
            },
            None => {
                assert(self.peers@ =~= old(self).peers@);
                assert(self.peers_of(group_id@).remove(peer_id@) =~= self.peers_of(group_id@));
            },
        }
        SwiftEvent::PeerLeft { group_id: group_id.clone(), peer_id: peer_id.clone() }
    }

    /// The peers of a group, each once, in some order.
    pub fn group_peers(&self, group_id: &str) -> (r: Vec<String>)
        requires
            self.wf(),
        ensures
            collections::texts(r@).no_duplicates(),
            collections::texts(r@).to_set() == self.peers_of(group_id@),
    {
        match self.peers.get(group_id) {
            Some(set) => set.list(),
            None => {
                let r: Vec<String> = Vec::new();
                assert(collections::texts(r@) =~= Seq::empty());
                assert(collections::texts(r@).to_set() =~= Set::empty());
                r
            },
        }
    }

    /// How many peers of a group are up.
    pub fn group_peer_count(&self, group_id: &str) -> (r: i32)
        requires
            self.wf(),
        ensures
            r == (self.peers_of(group_id@).len() as usize) as i32,
    {
        match self.peers.get(group_id) {
            Some(set) => {
                #[verifier::truncate]
                let n: i32 = set.len() as i32;
                n
            },
            None => 0,
        }
    }

    /// How many peers are up over all groups; one that is up in two groups counts twice.
    pub fn total_peer_count(&self) -> (r: i32)
        requires
            self.wf(),
        ensures
            exists|groups: Seq<Seq<char>>|
                groups.no_duplicates() && groups.to_set() == self.peers@.dom() && r == (
                #[trigger] peer_sum(self.peers@, groups) as u128) as i32,
    {
        let groups = self.peers.keys();
        let ghost all = collections::texts(groups@);
        let mut total: u128 = 0;
        let mut i: usize = 0;
        while i < groups.len()
            invariant
                i <= groups@.len(),
                self.wf(),
                all == collections::texts(groups@),
                all.to_set() == self.peers@.dom(),
                total <= i * 0x1_0000_0000_0000_0000,
                total == peer_sum(self.peers@, all.take(i as int)),
            decreases groups.len() - i,
        {
            proof {
                assert(all.to_set().contains(all[i as int]));
                assert(all.take(i + 1).drop_last() =~= all.take(i as int));
            }
            match self.peers.get(groups[i].as_str()) {
                Some(set) => {
                    total = total + set.len() as u128;
                },
                None => {},
            }
            i = i + 1;
        }
        assert(all.take(i as int) =~= all);
        #[verifier::truncate]
        let r: i32 = total as i32;
        r
    }

    /// Takes note of an event that a peer of a group sent, after its statements ran; `touched`
    /// says whether the last of them changed a row, and `source_is_key` whether the peer that offers a
    /// snapshot is named by a key; from any other name nothing can be fetched.
    pub fn receive(&mut self, event: NetworkEvent, touched: bool, source_is_key: bool) -> (r:
        EventOutcome)
        requires
            old(self).wf(),
        ensures
            final(self).wf(),
            final(self).node_id == old(self).node_id,
            final(self).need_snapshot == old(self).need_snapshot,
            final(self).peers == old(self).peers,
            final(self).chat_peers == old(self).chat_peers,
            match event {
                NetworkEvent::GroupDeleted { id } => if touched {
                    &&& final(self).topics@ == old(self).topics@.remove(id@)
                    &&& final(self).groups@ == old(self).groups@.remove(id@)
                    &&& r.events@ == seq![
                        SwiftEvent::GroupDeleted { id },
                        SwiftEvent::Network(event),
                    ]
                } else {
                    &&& final(self).topics == old(self).topics
                    &&& final(self).groups == old(self).groups
                    &&& r.events@ == seq![SwiftEvent::Network(event)]
                },
                _ => {
                    &&& final(self).topics == old(self).topics
                    &&& final(self).groups == old(self).groups
                    &&& r.events@ == seq![SwiftEvent::Network(event)]
                },
            },
            r.download == match event {
                NetworkEvent::GroupSnapshotAvailable { source, group_id } => if source@
                    != old(self).node_id@ && old(self).needs(group_id@) && source_is_key {
                    Some((source, group_id))
                } else {
                    None
                },
                _ => None,
            },
    {
        let mut download: Option<(String, String)> = None;
        let mut events: Vec<SwiftEvent> = Vec::new();
        match &event {
            NetworkEvent::GroupDeleted { id } => {
                if touched {
                    self.topics.remove(id.as_str());
                    self.groups.remove(id.as_str());
                    events.push(SwiftEvent::GroupDeleted { id: id.clone() });
                }
            },
            NetworkEvent::GroupSnapshotAvailable { source, group_id } => {
                if !str_eq(source.as_str(), self.node_id.as_str()) && self.needs_snapshot(
                    group_id.as_str(),
                ) && source_is_key {
                    download = Some((source.clone(), group_id.clone()));
                }
            },
            _ => {},
        }
        events.push(SwiftEvent::Network(event));
        EventOutcome { download, events }
    }

    /// Whether a snapshot of a group is still needed.
    pub fn needs_snapshot(&self, group_id: &str) -> (r: bool)
        requires
            self.wf(),
        ensures
            r == self.needs(group_id@),
    {
        match self.need_snapshot.get(group_id) {
            Some(flag) => *flag,
            None => false,
        }
    }

    /// Whether to answer a snapshot request: a node does not answer its own, nor one from a peer that
    /// is not named by a key.
    pub fn answers_snapshot_request(&self, from_peer: &str, is_key: bool) -> (r: bool)
        ensures
            r == (from_peer@ != self.node_id@ && is_key),
    {
        !str_eq(from_peer, self.node_id.as_str()) && is_key
    }

    /// Takes note that the snapshot of a group has been stored.
    pub fn snapshot_received(&mut self, group_id: &String)
        requires
            old(self).wf(),
        ensures
            final(self).wf(),
            final(self).node_id == old(self).node_id,
            final(self).topics == old(self).topics,
            final(self).groups == old(self).groups,
            final(self).peers == old(self).peers,
            final(self).chat_peers == old(self).chat_peers,
            final(self).need_snapshot@ == if old(self).need_snapshot@.dom().contains(group_id@) {
                old(self).need_snapshot@.insert(group_id@, false)
            } else {
                old(self).need_snapshot@
            },
    {
        if self.need_snapshot.contains_key(group_id.as_str()) {
            self.need_snapshot.insert(group_id.clone(), false);
        }
    }

    /// The groups to ask for a snapshot now: those that still need one and whose topic is joined.
    pub fn snapshot_requests(&self) -> (r: Vec<String>)
        requires
            self.wf(),
        ensures
            collections::texts(r@).no_duplicates(),
            forall|g: Seq<char>|
                #![trigger collections::texts(r@).contains(g)]
                collections::texts(r@).contains(g) <==> self.needs(g) && self.topics@.contains(g),
    {
        let groups = self.need_snapshot.keys();
        let ghost all = collections::texts(groups@);
        let mut out: Vec<String> = Vec::new();
        let mut i: usize = 0;
        assert(collections::texts(out@) =~= Seq::empty());
        while i < groups.len()
            invariant
                i <= groups@.len(),
                self.wf(),
                all == collections::texts(groups@),
                all.no_duplicates(),
                all.to_set() == self.need_snapshot@.dom(),
                collections::texts(out@).no_duplicates(),
                forall|g: Seq<char>|
                    #![trigger collections::texts(out@).contains(g)]
                    collections::texts(out@).contains(g) <==> all.take(i as int).contains(g)
                        && self.needs(g) && self.topics@.contains(g),
            decreases groups.len() - i,
        {
            let ghost before = collections::texts(out@);
            let ghost here = all[i as int];
            assert(here == groups@[i as int]@);
            let wanted = self.needs_snapshot(groups[i].as_str()) && self.topics.contains(
                groups[i].as_str(),
            );
            if wanted {
                out.push(groups[i].clone());
                assert(collections::texts(out@) =~= before.push(here));
            }
            proof {
                let after = collections::texts(out@);
                assert(all.take(i + 1) =~= all.take(i as int).push(here));
                assert(!all.take(i as int).contains(here)) by {
                    if all.take(i as int).contains(here) {
                        let j = choose|j: int|
                            0 <= j < i && all.take(i as int)[j] == here;
                        assert(all[j] == all[i as int]);
                    }
                }
                assert(!before.contains(here));
                assert forall|g: Seq<char>|
                    #![trigger after.contains(g)]
                    after.contains(g) <==> all.take(i + 1).contains(g) && self.needs(g)
                        && self.topics@.contains(g) by {
                    assert(all.take(i + 1).contains(g) <==> all.take(i as int).contains(g) || g
                        == here) by {
                        lemma_push_contains(all.take(i as int), here, g);
                    }
                    lemma_push_contains(before, here, g);
                    assert(before.contains(g) <==> all.take(i as int).contains(g) && self.needs(g)
                        && self.topics@.contains(g));
                }
                if wanted {
                    lemma_push_no_duplicates(before, here);
                }
            }
            i = i + 1;
        }
        assert(all.take(i as int) =~= all);
        proof {
            assert forall|g: Seq<char>|
                #![trigger collections::texts(out@).contains(g)]
                collections::texts(out@).contains(g) <==> self.needs(g) && self.topics@.contains(
                    g,
                ) by {
                assert(all.contains(g) <==> all.to_set().contains(g));
            }
        }
        out
    }

    /// Starts to announce the groups that the tables hold, and no others.
    pub fn load_groups(&mut self, group_ids: Vec<String>)
        requires
            old(self).wf(),
        ensures
            final(self).wf(),
            final(self).node_id == old(self).node_id,
            final(self).topics == old(self).topics,
            final(self).need_snapshot == old(self).need_snapshot,
            final(self).peers == old(self).peers,
            final(self).chat_peers == old(self).chat_peers,
            final(self).groups@ == collections::texts(group_ids@).to_set(),
    {
        let mut groups = TextSet::new();
        let ghost all = collections::texts(group_ids@);
        let mut i: usize = 0;
        assert(all.take(0).to_set() =~= Set::empty());
        while i < group_ids.len()
            invariant
                i <= group_ids@.len(),
                all == collections::texts(group_ids@),
                groups.wf(),
                groups@ == all.take(i as int).to_set(),
            decreases group_ids.len() - i,
        {
            groups.insert(group_ids[i].clone());
            proof {
                let here = all[i as int];
                assert(all.take(i + 1) =~= all.take(i as int).push(here));
                assert(groups@ =~= all.take(i + 1).to_set()) by {
                    assert forall|g: Seq<char>|
                        groups@.contains(g) <==> all.take(i + 1).to_set().contains(g) by {
                        lemma_push_contains(all.take(i as int), here, g);
                    }
                }
            }
            i = i + 1;
        }
        assert(all.take(i as int) =~= all);
        self.groups = groups;
    }

    /// Takes in the groups that a peer announces and returns those that are new here, in the order
    /// in which the peer listed them.
    pub fn discover(&mut self, listed: &Vec<String>) -> (r: Vec<String>)
        requires
            old(self).wf(),
        ensures
            final(self).wf(),
            final(self).node_id == old(self).node_id,
            final(self).topics == old(self).topics,
            final(self).need_snapshot == old(self).need_snapshot,
            final(self).peers == old(self).peers,
            final(self).chat_peers == old(self).chat_peers,
            final(self).groups@ == old(self).groups@.union(collections::texts(listed@).to_set()),
            collections::texts(r@) == new_groups(old(self).groups@, collections::texts(listed@)),
    {
        let ghost all = collections::texts(listed@);
        let ghost known = self.groups@;
        let mut out: Vec<String> = Vec::new();
        let mut i: usize = 0;
        proof {
            assert(all.take(0) =~= Seq::empty());
            assert(self.groups@ =~= known.union(all.take(0).to_set()));
            assert(collections::texts(out@) =~= new_groups(known, all.take(0)));
        }
        while i < listed.len()
            invariant
                i <= listed@.len(),
                all == collections::texts(listed@),
                self.wf(),
                self.node_id == old(self).node_id,
                self.topics == old(self).topics,
                self.need_snapshot == old(self).need_snapshot,
                self.peers == old(self).peers,
                self.chat_peers == old(self).chat_peers,
                self.groups@ == known.union(all.take(i as int).to_set()),
                collections::texts(out@) == new_groups(known, all.take(i as int)),
            decreases listed.len() - i,
        {
            let ghost here = all[i as int];
            let ghost before = collections::texts(out@);
            let ghost groups_before = self.groups@;
            assert(here == listed@[i as int]@);
            let fresh = self.groups.insert(listed[i].clone());
            if fresh {
                out.push(listed[i].clone());
                assert(collections::texts(out@) =~= before.push(here));
            }
            proof {
                let next = all.take(i + 1);
                assert(next.drop_last() =~= all.take(i as int));
                assert(next.last() == here);
                assert(next =~= all.take(i as int).push(here));
                assert(groups_before.contains(here) <==> known.contains(here) || all.take(
                    i as int,
                ).contains(here));
                assert(self.groups@ =~= known.union(next.to_set())) by {
                    assert forall|g: Seq<char>|
                        self.groups@.contains(g) <==> known.union(next.to_set()).contains(g) by {
                        lemma_push_contains(all.take(i as int), here, g);
                    }
                }
            }
            i = i + 1;
        }
        assert(all.take(i as int) =~= all);
        out
    }

    /// Takes note that the topic of a group was joined on a command.
    pub fn topic_joined(&mut self, group_id: &String)
        requires
            old(self).wf(),
        ensures
            final(self).wf(),
            final(self).node_id == old(self).node_id,
            final(self).need_snapshot == old(self).need_snapshot,
            final(self).peers == old(self).peers,
            final(self).chat_peers == old(self).chat_peers,
            final(self).topics@ == old(self).topics@.insert(group_id@),
            final(self).groups@ == old(self).groups@.insert(group_id@),
    {
        self.topics.insert(group_id.clone());
        self.groups.insert(group_id.clone());
    }

    /// Takes note that the topic of a discovered group was joined; its content is not here yet.
    pub fn discovered_topic_joined(&mut self, group_id: &String)
        requires
            old(self).wf(),
        ensures
            final(self).wf(),
            final(self).node_id == old(self).node_id,
            final(self).groups == old(self).groups,
            final(self).peers == old(self).peers,
            final(self).chat_peers == old(self).chat_peers,
            final(self).topics@ == old(self).topics@.insert(group_id@),
            final(self).need_snapshot@ == old(self).need_snapshot@.insert(group_id@, true),
    {
        self.topics.insert(group_id.clone());
        self.need_snapshot.insert(group_id.clone(), true);
    }

    /// Forgets a group whose deletion was told through discovery.
    pub fn group_gone(&mut self, id: String) -> (r: SwiftEvent)
        requires
            old(self).wf(),
        ensures
            final(self).wf(),
            final(self).node_id == old(self).node_id,
            final(self).need_snapshot == old(self).need_snapshot,
            final(self).peers == old(self).peers,
            final(self).chat_peers == old(self).chat_peers,
            final(self).topics@ == old(self).topics@.remove(id@),
            final(self).groups@ == old(self).groups@.remove(id@),
            r == (SwiftEvent::GroupDeleted { id }),
    {
        self.topics.remove(id.as_str());
        self.groups.remove(id.as_str());
        SwiftEvent::GroupDeleted { id }
    }

    /// Takes note of an open direct chat stream.
    pub fn chat_opened(&mut self, peer_id: &String, workspace_id: String) -> (r: SwiftEvent)
        requires
            old(self).wf(),
        ensures
            final(self).wf(),
            final(self).node_id == old(self).node_id,
            final(self).topics == old(self).topics,
            final(self).groups == old(self).groups,
            final(self).need_snapshot == old(self).need_snapshot,
            final(self).peers == old(self).peers,
            final(self).chat_peers@ == old(self).chat_peers@.insert(peer_id@),
            r == (SwiftEvent::ChatStreamReady { peer_id: *peer_id, workspace_id }),
    {
        self.chat_peers.insert(peer_id.clone());
        SwiftEvent::ChatStreamReady { peer_id: peer_id.clone(), workspace_id }
    }

    /// Takes note of a closed direct chat stream.
    pub fn chat_closed(&mut self, peer_id: String) -> (r: SwiftEvent)
        requires
            old(self).wf(),
        ensures
            final(self).wf(),
            final(self).node_id == old(self).node_id,
            final(self).topics == old(self).topics,
            final(self).groups == old(self).groups,
            final(self).need_snapshot == old(self).need_snapshot,
            final(self).peers == old(self).peers,
            final(self).chat_peers@ == old(self).chat_peers@.remove(peer_id@),
            r == (SwiftEvent::ChatStreamClosed { peer_id }),
    {
        self.chat_peers.remove(peer_id.as_str());
        SwiftEvent::ChatStreamClosed { peer_id }
    }

    /// Whether `action` is what a command asks of the network here; `group` is the group that was
    /// looked up for it.
    pub open spec fn answers(
        &self,
        cmd: NetworkCommand,
        group: Option<String>,
        action: NetworkAction,
    ) -> bool {
        match cmd {
            NetworkCommand::JoinGroup { group_id } => if self.topics@.contains(group_id@) {
                action is Nothing
            } else {
                &&& action matches NetworkAction::Subscribe { group_id: g, topic }
                &&& g == group_id
                &&& topic@ == ids::group_topic(group_id@)
            },
            NetworkCommand::Broadcast { group_id, event } => if self.topics@.contains(group_id@) {
                action == (NetworkAction::Publish { group_id, event })
            } else {
                action is Nothing
            },
            NetworkCommand::UploadToGroup { group_id, path } => action == (
            NetworkAction::UploadToGroup { group_id, path }),
            NetworkCommand::UploadToWorkspace { workspace_id, path } => action == (
            NetworkAction::UploadToWorkspace { workspace_id, path }),
            NetworkCommand::DeleteGroup { id } => action == (NetworkAction::AnnounceDeletion {
                event: NetworkEvent::GroupDeleted { id },
            }),
            NetworkCommand::StartChatStream { peer_id, workspace_id } => action == (
            NetworkAction::OpenChat { peer_id, workspace_id }),
            NetworkCommand::SendDirectChat { peer_id, workspace_id, message, parent_id } =>
            if self.chat_peers@.contains(peer_id@) {
                action == (NetworkAction::Forward {
                    peer_id,
                    message: DirectChatOutbound { workspace_id, message, parent_id },
                })
            } else {
                action is Nothing
            },
            NetworkCommand::RequestSnapshot { .. } => action is Nothing,
            NetworkCommand::RequestFileDownload { .. } => action is Nothing,
            _ => if group is Some && self.topics@.contains(group->0@) {
                action == (NetworkAction::Publish {
                    group_id: group->0,
                    event: deletion_event(cmd)->0,
                })
            } else {
                action is Nothing
            },
        }
    }

    /// Sends a deletion on the topic of a group, where there is a group and its topic is joined.
    fn publish_deletion(&self, group: Option<String>, event: NetworkEvent) -> (r: NetworkAction)
        requires
            self.wf(),
        ensures
            if group is Some && self.topics@.contains(group->0@) {
                r == (NetworkAction::Publish { group_id: group->0, event })
            } else {
                r is Nothing
            },
    {
        match group {
            Some(group_id) => if self.topics.contains(group_id.as_str()) {
                NetworkAction::Publish { group_id, event }
            } else {
                NetworkAction::Nothing
            },
            None => NetworkAction::Nothing,
        }
    }

    /// Decides what a command asks of the network.
    pub fn plan(&self, cmd: NetworkCommand, group: Option<String>) -> (r: NetworkAction)
        requires
            self.wf(),
        ensures
            self.answers(cmd, group, r),
    {
        match cmd {
            NetworkCommand::JoinGroup { group_id } => if self.topics.contains(group_id.as_str()) {
                NetworkAction::Nothing
            } else {
                let topic = ids::make_group_topic_id(group_id.as_str());
                NetworkAction::Subscribe { group_id, topic }
            },
            NetworkCommand::Broadcast { group_id, event } => if self.topics.contains(
                group_id.as_str(),
            ) {
                NetworkAction::Publish { group_id, event }
            } else {
                NetworkAction::Nothing
            },
            NetworkCommand::UploadToGroup { group_id, path } => NetworkAction::UploadToGroup {
                group_id,
                path,
            },
            NetworkCommand::UploadToWorkspace { workspace_id, path } =>
            NetworkAction::UploadToWorkspace { workspace_id, path },
            NetworkCommand::DeleteGroup { id } => NetworkAction::AnnounceDeletion {
                event: NetworkEvent::GroupDeleted { id },
            },
            NetworkCommand::DeleteWorkspace { id } => self.publish_deletion(
                group,
                NetworkEvent::WorkspaceDeleted { id },
            ),
            NetworkCommand::DeleteBoard { id } => self.publish_deletion(
                group,
                NetworkEvent::BoardDeleted { id },
            ),
            NetworkCommand::DeleteChat { id } => self.publish_deletion(
                group,
                NetworkEvent::ChatDeleted { id },
            ),
            NetworkCommand::StartChatStream { peer_id, workspace_id } => NetworkAction::OpenChat {
                peer_id,
                workspace_id,
            },
            NetworkCommand::SendDirectChat { peer_id, workspace_id, message, parent_id } =>
            if self.chat_peers.contains(peer_id.as_str()) {
                NetworkAction::Forward {
                    peer_id,
                    message: DirectChatOutbound { workspace_id, message, parent_id },
                }
            } else {
                NetworkAction::Nothing
            },
            NetworkCommand::RequestSnapshot { .. } => NetworkAction::Nothing,
            NetworkCommand::RequestFileDownload { .. } => NetworkAction::Nothing,
        }
    }

    /// Whether `upload` is what becomes of a file that belongs to `group` and `workspace`; it is
    /// told on the group's topic, where there is a group and its topic is joined.
    pub open spec fn uploads(
        &self,
        group: Option<String>,
        workspace: Option<String>,
        bytes: Seq<u8>,
        now: i64,
        upload: Upload,
    ) -> bool {
        &&& upload.hash@ == hash::content_id(bytes)
        &&& upload.statement == Statement::InsertFile(
            FileRecord {
                id: upload.id,
                group_id: group,
                workspace_id: workspace,
                board_id: None,
                name: upload.name,
                hash: upload.hash,
                size: (bytes.len() as u64) as i64,
                source_peer: self.node_id,
                local_path: None,
                created_at: now,
            },
            OnConflict::Replace,
        )
        &&& upload.publish == if group is Some && self.topics@.contains(group->0@) {
            Some(
                (
                    group->0,
                    NetworkEvent::FileAvailable {
                        id: upload.id,
                        group_id: group,
                        workspace_id: workspace,
                        board_id: None,
                        name: upload.name,
                        hash: upload.hash,
                        size: bytes.len() as u64,
                        source_peer: self.node_id,
                        created_at: now,
                    },
                ),
            )
        } else {
            None
        }
    }

    fn upload(
        &self,
        id: String,
        group: Option<String>,
        workspace: Option<String>,
        file_name: Option<String>,
        bytes: &Vec<u8>,
        now: i64,
    ) -> (r: Upload)
        requires
            self.wf(),
        ensures
            r.id == id,
            r.name@ == match file_name {
                Some(n) => n@,
                None => "file"@,
            },
            self.uploads(group, workspace, bytes@, now, r),
    {
        let hash = hash::hash_bytes(bytes.as_slice());
        let size: u64 = bytes.len() as u64;
        let name = match file_name {
            Some(n) => n,
            None => "file".to_owned(),
        };
        let statement = Statement::InsertFile(
            FileRecord {
                id: id.clone(),
                group_id: group.clone(),
                workspace_id: workspace.clone(),
                board_id: None,
                name: name.clone(),
                hash: hash.clone(),
                #[verifier::truncate]
                size: size as i64,
                source_peer: self.node_id.clone(),
                local_path: None,
                created_at: now,
            },
            OnConflict::Replace,
        );
        let publish = match group {
            Some(group_id) => if self.topics.contains(group_id.as_str()) {
                let event = NetworkEvent::FileAvailable {
                    id: id.clone(),
                    group_id: Some(group_id.clone()),
                    workspace_id: workspace,
                    board_id: None,
                    name: name.clone(),
                    hash: hash.clone(),
                    size,
                    source_peer: self.node_id.clone(),
                    created_at: now,
                };
                Some((group_id, event))
            } else {
                None
            },
            None => None,
        };
        Upload { id, name, hash, statement, publish }
    }

    /// Uploads a file that was read from `path` into a group. `file_name` is the last part of the
    /// path, where it has one that is text.
    pub fn upload_to_group(
        &self,
        group_id: String,
        path: &str,
        file_name: Option<String>,
        bytes: &Vec<u8>,
        now: i64,
    ) -> (r: Upload)
        requires
            self.wf(),
        ensures
            r.id@ == ids::path_file_id(group_id@, path@),
            r.name@ == match file_name {
                Some(n) => n@,
                None => "file"@,
            },
            self.uploads(Some(group_id), None, bytes@, now, r),
    {
        let id = ids::new_path_file_id(group_id.as_str(), path);
        self.upload(id, Some(group_id), None, file_name, bytes, now)
    }

    /// Uploads a file that was read from `path` into a workspace; `group` is the workspace's group.
    pub fn upload_to_workspace(
        &self,
        workspace_id: String,
        group: Option<String>,
        path: &str,
        file_name: Option<String>,
        bytes: &Vec<u8>,
        now: i64,
    ) -> (r: Upload)
        requires
            self.wf(),
        ensures
            r.id@ == ids::path_file_id(workspace_id@, path@),
            r.name@ == match file_name {
                Some(n) => n@,
                None => "file"@,
            },
            self.uploads(group, Some(workspace_id), bytes@, now, r),
    {
        let id = ids::new_path_file_id(workspace_id.as_str(), path);
        self.upload(id, group, Some(workspace_id), file_name, bytes, now)
    }
}

/// The groups of a list that are not known yet, each where it stands first.
pub open spec fn new_groups(known: Set<Seq<char>>, listed: Seq<Seq<char>>) -> Seq<Seq<char>>
    decreases listed.len(),
{
    if listed.len() == 0 {
        Seq::empty()
    } else {
        let before = new_groups(known, listed.drop_last());
        if known.contains(listed.last()) || listed.drop_last().contains(listed.last()) {
            before
        } else {
            before.push(listed.last())
        }
    }
}

proof fn lemma_push_contains(s: Seq<Seq<char>>, x: Seq<char>, y: Seq<char>)
    ensures
        s.push(x).contains(y) <==> s.contains(y) || y == x,
{
    if s.contains(y) {
        let i = choose|i: int| 0 <= i < s.len() && s[i] == y;
        assert(s.push(x)[i] == y);
    }
    if y == x {
        assert(s.push(x)[s.len() as int] == y);
    }
}

proof fn lemma_push_no_duplicates(s: Seq<Seq<char>>, x: Seq<char>)
    requires
        s.no_duplicates(),
        !s.contains(x),
    ensures
        s.push(x).no_duplicates(),
{
    assert forall|i: int, j: int| 0 <= i < j < s.push(x).len() implies s.push(x)[i] != s.push(
        x,
    )[j] by {
        if j == s.len() {
            assert(s.contains(s[i]));
        }
    }
}

/// What discovery reports as new was not known, and comes once; a second announcement of the same
/// groups reports nothing.
pub proof fn discovery_reports_a_group_once(known: Set<Seq<char>>, listed: Seq<Seq<char>>)
    ensures
        new_groups(known, listed).no_duplicates(),
        forall|g: Seq<char>|
            #![trigger new_groups(known, listed).contains(g)]
            new_groups(known, listed).contains(g) <==> listed.contains(g) && !known.contains(g),
        new_groups(known.union(listed.to_set()), listed) == Seq::<Seq<char>>::empty(),
    decreases listed.len(),
{
    if listed.len() > 0 {
        let rest = listed.drop_last();
        let last = listed.last();
        discovery_reports_a_group_once(known, rest);
        let before = new_groups(known, rest);
        assert(listed =~= rest.push(last));
        assert forall|g: Seq<char>|
            #![trigger new_groups(known, listed).contains(g)]
            new_groups(known, listed).contains(g) <==> listed.contains(g) && !known.contains(g) by {
            lemma_push_contains(rest, last, g);
            lemma_push_contains(before, last, g);
            assert(before.contains(g) <==> rest.contains(g) && !known.contains(g));
        }
        if !known.contains(last) && !rest.contains(last) {
            assert(!before.contains(last));
            lemma_push_no_duplicates(before, last);
        }
    }
    lemma_nothing_new(known.union(listed.to_set()), listed);
}

proof fn lemma_nothing_new(known: Set<Seq<char>>, listed: Seq<Seq<char>>)
    requires
        listed.to_set().subset_of(known),
    ensures
        new_groups(known, listed) == Seq::<Seq<char>>::empty(),
    decreases listed.len(),
{
    if listed.len() > 0 {
        let rest = listed.drop_last();
        assert(rest.to_set().subset_of(known)) by {
            assert forall|g: Seq<char>| rest.to_set().contains(g) implies known.contains(g) by {
                let i = choose|i: int| 0 <= i < rest.len() && rest[i] == g;
                assert(listed[i] == g);
                assert(listed.contains(g));
                assert(listed.to_set().contains(g));
            }
        }
        lemma_nothing_new(known, rest);
        assert(listed.contains(listed.last()));
        assert(listed.to_set().contains(listed.last()));
    }
}

/// A peer that was not up, comes up and goes down again leaves the peers of every group as they
/// were.
pub proof fn joining_and_leaving_cancel(
    first: NetworkState,
    between: NetworkState,
    last: NetworkState,
    group_id: Seq<char>,
    peer: Seq<char>,
)
    requires
        !first.peers_of(group_id).contains(peer),
        between.came_up(&first, group_id, peer),
        last.went_down(&between, group_id, peer),
    ensures
        forall|g: Seq<char>| #[trigger] last.peers_of(g) == first.peers_of(g),
{
    assert forall|g: Seq<char>| #[trigger] last.peers_of(g) == first.peers_of(g) by {
        if g == group_id {
            assert(first.peers_of(g).insert(peer).remove(peer) =~= first.peers_of(g));
        } else {
            assert(between.peers_of(g) == first.peers_of(g));
        }
    }
}

} // verus!
