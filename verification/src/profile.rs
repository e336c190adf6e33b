//! Profiles of this node and of its peers.

use crate::hash;
use crate::model::{Effect, NetworkCommand, NetworkEvent, SwiftEvent};
use crate::tables::Statement;
use vstd::prelude::*;
use vstd::string::*;

verus! {

/// A profile as it is shown.
#[derive(Debug, PartialEq, Eq)]
pub struct Profile {
    pub node_id: String,
    pub display_name: Option<String>,
    pub avatar_hash: Option<String>,
    pub status: String,
    pub last_seen: Option<i64>,
    pub updated_at: Option<i64>,
}

/// Whether a profile says nothing but who it is of and a status.
pub open spec fn blank_profile(node_id: Seq<char>, status: Seq<char>, p: Profile) -> bool {
    &&& p.node_id@ == node_id
    &&& p.display_name is None
    &&& p.avatar_hash is None
    &&& p.status@ == status
    &&& p.last_seen is None
    &&& p.updated_at is None
}

fn blank(node_id: &str, status: &str) -> (r: Profile)
    ensures
        blank_profile(node_id@, status@, r),
{
    Profile {
        node_id: node_id.to_owned(),
        display_name: None,
        avatar_hash: None,
        status: status.to_owned(),
        last_seen: None,
        updated_at: None,
    }
}

/// The profile of a peer: what is stored, or a blank one of unknown status.
pub fn user_profile(stored: Option<Profile>, node_id: &str) -> (r: Profile)
    ensures
        match stored {
            Some(p) => r == p,
            None => blank_profile(node_id@, "unknown"@, r),
        },
{
    match stored {
        Some(p) => p,
        None => blank(node_id, "unknown"),
    }
}

/// The profile of this node: what is stored, or a blank one that is online.
pub fn my_profile(stored: Option<Profile>, node_id: &str) -> (r: Profile)
    ensures
        match stored {
            Some(p) => r == p,
            None => blank_profile(node_id@, "online"@, r),
        },
{
    match stored {
        Some(p) => p,
        None => blank(node_id, "online"),
    }
}

/// Where the avatar of a new profile comes from.
pub enum AvatarSource {
    /// A file was named and read.
    Bytes(Vec<u8>),
    /// A file was named and could not be read.
    Unreadable,
    /// No file was named; this is the avatar that is stored.
    Stored(Option<String>),
}

/// The avatar of a new profile: the hash of the file that was read, or the stored one.
pub fn choose_avatar(source: AvatarSource) -> (r: Option<String>)
    ensures
        match source {
            AvatarSource::Bytes(data) => r matches Some(h) && h@ == hash::content_id(data@),
            AvatarSource::Unreadable => r is None,
            AvatarSource::Stored(avatar) => r == avatar,
        },
{
    match source {
        AvatarSource::Bytes(data) => Some(hash::hash_bytes(data.as_slice())),
        AvatarSource::Unreadable => None,
        AvatarSource::Stored(avatar) => avatar,
    }
}

/// The event that tells a profile.
pub open spec fn profile_event(
    node_id: String,
    display_name: String,
    avatar_hash: Option<String>,
) -> NetworkEvent {
    NetworkEvent::ProfileUpdated { node_id, display_name, avatar_hash }
}

/// What a new profile of this node leads to.
pub struct ProfileChange {
    pub statement: Statement,
    pub effects: Vec<Effect>,
}

/// Sets the profile of this node: it is stored, told to every group in turn, and then shown.
pub fn set_my_profile(
    node_id: &String,
    display_name: &String,
    avatar_hash: &Option<String>,
    group_ids: &Vec<String>,
    now: i64,
) -> (r: ProfileChange)
    ensures
        r.statement == (Statement::SetProfile {
            node_id: *node_id,
            display_name: *display_name,
            avatar_hash: *avatar_hash,
            now,
        }),
        r.effects@ == group_ids@.map_values(
            |group_id: String|
                Effect::Send(
                    NetworkCommand::Broadcast {
                        group_id,
                        event: profile_event(*node_id, *display_name, *avatar_hash),
                    },
                ),
        ).push(
            Effect::Emit(
                SwiftEvent::Network(profile_event(*node_id, *display_name, *avatar_hash)),
            ),
        ),
{
    let statement = Statement::SetProfile {
        node_id: node_id.clone(),
        display_name: display_name.clone(),
        avatar_hash: avatar_hash.clone(),
        now,
    };
    let ghost told = group_ids@.map_values(
        |group_id: String|
            Effect::Send(
                NetworkCommand::Broadcast {
                    group_id,
                    event: profile_event(*node_id, *display_name, *avatar_hash),
                },
            ),
    );
    let mut effects: Vec<Effect> = Vec::new();
    let mut i: usize = 0;
    while i < group_ids.len()
        invariant
            i <= group_ids@.len(),
            told == group_ids@.map_values(
                |group_id: String|
                    Effect::Send(
                        NetworkCommand::Broadcast {
                            group_id,
                            event: profile_event(*node_id, *display_name, *avatar_hash),
                        },
                    ),
            ),
            effects@ == told.take(i as int),
        decreases group_ids.len() - i,
    {
        effects.push(
            Effect::Send(
                NetworkCommand::Broadcast {
                    group_id: group_ids[i].clone(),
                    event: NetworkEvent::ProfileUpdated {
                        node_id: node_id.clone(),
                        display_name: display_name.clone(),
                        avatar_hash: avatar_hash.clone(),
                    },
                },
            ),
        );
        assert(effects@ =~= told.take(i + 1));
        i = i + 1;
    }
    assert(told.take(i as int) =~= told);
    effects.push(
        Effect::Emit(
            SwiftEvent::Network(
                NetworkEvent::ProfileUpdated {
                    node_id: node_id.clone(),
                    display_name: display_name.clone(),
                    avatar_hash: avatar_hash.clone(),
                },
            ),
        ),
    );
    ProfileChange { statement, effects }
}

/// Records what is known of a peer's status.
pub fn update_peer_status(node_id: String, status: String, now: i64) -> (r: Statement)
    ensures
        r == (Statement::SetPeerStatus { node_id, status, now }),
{
    Statement::SetPeerStatus { node_id, status, now }
}

} // verus!
