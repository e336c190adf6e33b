//! Joining a group from an invitation.

use crate::actors::network_actor::NetworkCommand;
use crate::json;
use crate::json::Json;
use crate::model::{Group, NetworkEvent, SwiftEvent};
use crate::tables::{OnConflict, Statement};
use vstd::prelude::*;
use vstd::string::*;

verus! {

/// The icon of a group that does not name one.
pub const DEFAULT_ICON: &'static str = "folder.fill";

/// The color of a group that does not name one.
pub const DEFAULT_COLOR: &'static str = "#00AEEF";

/// What an invitation says.
#[derive(Debug, PartialEq, Eq)]
pub struct Invite {
    pub group_id: String,
    pub group_name: String,
    pub group_icon: String,
    pub group_color: String,
    pub inviter_node_id: Option<String>,
}

/// Why an invitation was refused.
#[derive(Debug, PartialEq, Eq)]
pub enum InviteError {
    /// The text is not JSON; this is why.
    Unreadable(String),
    MissingGroupId,
    MissingGroupName,
}

impl InviteError {
    /// The reason in words.
    pub fn message(&self) -> (r: String)
        ensures
            r@ == match self {
                InviteError::Unreadable(e) => "Parse error: "@ + e@,
                InviteError::MissingGroupId => "Missing group_id"@,
                InviteError::MissingGroupName => "Missing group_name"@,
            },
    {
        match self {
            InviteError::Unreadable(e) => {
                let mut s = "Parse error: ".to_owned();
                s.append(e.as_str());
                s
            },
            InviteError::MissingGroupId => "Missing group_id".to_owned(),
            InviteError::MissingGroupName => "Missing group_name".to_owned(),
        }
    }
}

/// Whether an invitation is what a JSON object says.
pub open spec fn invites(json: Json, i: Invite) -> bool {
    &&& json.member_text("group_id"@) == Some(i.group_id@)
    &&& json.member_text("group_name"@) == Some(i.group_name@)
    &&& i.group_icon@ == json.text_or("group_icon"@, "folder.fill"@)
    &&& i.group_color@ == json.text_or("group_color"@, "#00AEEF"@)
    &&& match i.inviter_node_id {
        Some(id) => json.member_text("inviter_node_id"@) == Some(id@),
        None => json.member_text("inviter_node_id"@) is None,
    }
}

/// Reads an invitation: it has to name the group, by identifier first and then by name.
pub fn read_invite(json: &Json) -> (r: Result<Invite, InviteError>)
    ensures
        match r {
            Ok(i) => invites(*json, i),
            Err(e) => if json.member_text("group_id"@) is None {
                e is MissingGroupId
            } else {
                e is MissingGroupName && json.member_text("group_name"@) is None
            },
        },
{
    let group_id = match json.get_opt_text("group_id") {
        Some(id) => id,
        None => {
            return Err(InviteError::MissingGroupId);
        },
    };
    let group_name = match json.get_opt_text("group_name") {
        Some(name) => name,
        None => {
            return Err(InviteError::MissingGroupName);
        },
    };
    Ok(
        Invite {
            group_id,
            group_name,
            group_icon: json.get_text("group_icon", "folder.fill"),
            group_color: json.get_text("group_color", "#00AEEF"),
            inviter_node_id: json.get_opt_text("inviter_node_id"),
        },
    )
}

/// Reads an invitation from a JSON text.
pub fn parse_invite(text: &str) -> (r: Result<Invite, InviteError>)
    ensures
        match json::parsed_json(text@) {
            None => r matches Err(InviteError::Unreadable(e)) && e@ == json::json_error(text@),
            Some(json) => match r {
                Ok(i) => invites(json, i),
                Err(e) => if json.member_text("group_id"@) is None {
                    e is MissingGroupId
                } else {
                    e is MissingGroupName && json.member_text("group_name"@) is None
                },
            },
        },
{
    match json::parse_json(text) {
        Some(json) => read_invite(&json),
        None => Err(InviteError::Unreadable(json::json_error_message(text))),
    }
}

/// What accepting an invitation does.
pub struct Join {
    pub statement: Statement,
    /// Sent once the group is stored.
    pub command: NetworkCommand,
    /// Shown once the group is stored.
    pub event: SwiftEvent,
}

/// The group that an invitation is to, as it is stored.
pub open spec fn invited_group(i: Invite, now: i64) -> Group {
    Group {
        id: i.group_id,
        name: i.group_name,
        icon: i.group_icon,
        color: i.group_color,
        created_at: now,
    }
}

/// Accepts an invitation: nothing is left to do where the group is already here.
pub fn accept_invite(invite: Invite, already_member: bool, now: i64) -> (r: Option<Join>)
    ensures
        r is None <==> already_member,
        r matches Some(join) ==> {
            &&& join.statement == Statement::InsertGroup(
                invited_group(invite, now),
                OnConflict::Abort,
            )
            &&& join.command == (NetworkCommand::JoinGroup {
                group_id: invite.group_id,
                bootstrap_peer: invite.inviter_node_id,
            })
            &&& join.event == SwiftEvent::Network(
                NetworkEvent::GroupCreated(invited_group(invite, now)),
            )
        },
{
    if already_member {
        return None;
    }
    let group = Group {
        id: invite.group_id.clone(),
        name: invite.group_name,
        icon: invite.group_icon,
        color: invite.group_color,
        created_at: now,
    };
    Some(
        Join {
            statement: Statement::InsertGroup(group.clone(), OnConflict::Abort),
            command: NetworkCommand::JoinGroup {
                group_id: invite.group_id,
                bootstrap_peer: invite.inviter_node_id,
            },
            event: SwiftEvent::Network(NetworkEvent::GroupCreated(group)),
        },
    )
}

/// The icon and color of a new group: the defaults where none are named.
pub fn group_look(icon: Option<String>, color: Option<String>) -> (r: (String, String))
    ensures
        r.0@ == match icon {
            Some(i) => i@,
            None => DEFAULT_ICON@,
        },
        r.1@ == match color {
            Some(c) => c@,
            None => DEFAULT_COLOR@,
        },
{
    let icon = match icon {
        Some(i) => i,
        None => DEFAULT_ICON.to_owned(),
    };
    let color = match color {
        Some(c) => c,
        None => DEFAULT_COLOR.to_owned(),
    };
    (icon, color)
}

} // verus!
