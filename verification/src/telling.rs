//! What a command of the user interface stores, tells peers and shows.

use crate::command;
use crate::command::{ChatRow, CommandPlan, GroupLookup, MessageRow, Reading};
use crate::gossip;
use crate::hash;
use crate::model::{CommandMsg, Effect, Group, NetworkCommand, NetworkEvent, SwiftEvent, Workspace};
use crate::replication;
use crate::tables;
use crate::tables::{Statement, Tables};
use vstd::prelude::*;
use vstd::string::*;
use vstd::utf8::*;

verus! {

/// Whether effects show an event to the user.
pub open spec fn shows(effects: Seq<Effect>, event: SwiftEvent) -> bool {
    effects.contains(Effect::Emit(event))
}

/// Whether effects hand a command to the network.
pub open spec fn hands_on(effects: Seq<Effect>, cmd: NetworkCommand) -> bool {
    effects.contains(Effect::Send(cmd))
}

/// Whether effects tell an event to a group and show it, and do nothing else.
pub open spec fn tells(effects: Seq<Effect>, group: Option<String>, event: NetworkEvent) -> bool {
    &&& shows(effects, SwiftEvent::Network(event))
    &&& group matches Some(group_id) ==> hands_on(
        effects,
        NetworkCommand::Broadcast { group_id, event },
    )
    &&& effects.len() == (if group is Some {
        2int
    } else {
        1
    })
}

/// Whether effects join a group, tell it an event and show that, and do nothing else.
pub open spec fn joins_and_tells(effects: Seq<Effect>, group_id: String, event: NetworkEvent) -> bool {
    &&& effects.len() == 3
    &&& effects[0] == Effect::Send(NetworkCommand::JoinGroup { group_id })
    &&& hands_on(effects, NetworkCommand::Broadcast { group_id, event })
    &&& shows(effects, SwiftEvent::Network(event))
}

/// Creating something tells what was asked for, under the identifier that was given to it: a group
/// to itself, a workspace to its group, a board or a chat message to the group that was found for
/// its workspace.
pub proof fn creating_is_told(
    id: String,
    node_id: &String,
    now: i64,
    touched: bool,
    group: Option<String>,
    name: String,
    icon: String,
    color: String,
    owner: String,
    parent_id: Option<String>,
    created_group: Vec<Effect>,
    created_workspace: Vec<Effect>,
    created_board: Vec<Effect>,
    sent: Vec<Effect>,
)
    requires
        call_ensures(
            command::command_effects,
            (CommandMsg::CreateGroup { name, icon, color }, id, node_id, now, touched, group),
            created_group,
        ),
        call_ensures(
            command::command_effects,
            (
                CommandMsg::CreateWorkspace { group_id: owner, name },
                id,
                node_id,
                now,
                touched,
                group,
            ),
            created_workspace,
        ),
        call_ensures(
            command::command_effects,
            (
                CommandMsg::CreateBoard { workspace_id: owner, name },
                id,
                node_id,
                now,
                touched,
                group,
            ),
            created_board,
        ),
        call_ensures(
            command::command_effects,
            (
                CommandMsg::SendChat { workspace_id: owner, message: name, parent_id },
                id,
                node_id,
                now,
                touched,
                group,
            ),
            sent,
        ),
    ensures
        joins_and_tells(
            created_group@,
            id,
            NetworkEvent::GroupCreated(Group { id, name, icon, color, created_at: now }),
        ),
        joins_and_tells(
            created_workspace@,
            owner,
            NetworkEvent::WorkspaceCreated(
                Workspace { id, group_id: owner, name, created_at: now },
            ),
        ),
        tells(
            created_board@,
            group,
            NetworkEvent::BoardCreated { id, workspace_id: owner, name, created_at: now },
        ),
        tells(
            sent@,
            group,
            NetworkEvent::ChatSent {
                id,
                workspace_id: owner,
                message: name,
                author: *node_id,
                parent_id,
                timestamp: now,
            },
        ),
{
    assert(created_group@[1] is Send && created_group@[2] is Emit);
    assert(created_workspace@[1] is Send && created_workspace@[2] is Emit);
    assert(created_board@[0] is Emit);
    assert(sent@[0] is Emit);
    if group is Some {
        assert(created_board@[1] is Send);
        assert(sent@[1] is Send);
    }
}

/// Renaming or deleting something that was there is told under its own identifier, and with the new
/// name; where nothing was there nothing is told. A group's renaming goes to the group itself, all
/// else to the group that was found.
pub proof fn changing_is_told(
    new_id: String,
    node_id: &String,
    now: i64,
    touched: bool,
    group: Option<String>,
    id: String,
    name: String,
    renamed_group: Vec<Effect>,
    renamed_workspace: Vec<Effect>,
    renamed_board: Vec<Effect>,
)
    requires
        call_ensures(
            command::command_effects,
            (CommandMsg::RenameGroup { id, name }, new_id, node_id, now, touched, group),
            renamed_group,
        ),
        call_ensures(
            command::command_effects,
            (CommandMsg::RenameWorkspace { id, name }, new_id, node_id, now, touched, group),
            renamed_workspace,
        ),
        call_ensures(
            command::command_effects,
            (CommandMsg::RenameBoard { id, name }, new_id, node_id, now, touched, group),
            renamed_board,
        ),
    ensures
        !touched ==> renamed_group@.len() == 0 && renamed_workspace@.len() == 0
            && renamed_board@.len() == 0,
        touched ==> tells(renamed_group@, Some(id), NetworkEvent::GroupRenamed { id, name }),
        touched ==> tells(renamed_workspace@, group, NetworkEvent::WorkspaceRenamed { id, name }),
        touched ==> tells(renamed_board@, group, NetworkEvent::BoardRenamed { id, name }),
{
    if touched {
        assert(renamed_group@[0] is Emit && renamed_group@[1] is Send);
        assert(renamed_workspace@[0] is Emit);
        assert(renamed_board@[0] is Emit);
        if group is Some {
            assert(renamed_workspace@[1] is Send);
            assert(renamed_board@[1] is Send);
        }
    }
}

/// Whether effects show a deletion and hand it to the network where that is asked for, and do
/// nothing else.
pub open spec fn deletes(
    effects: Seq<Effect>,
    shown: SwiftEvent,
    cmd: NetworkCommand,
    to_network: bool,
) -> bool {
    &&& shows(effects, shown)
    &&& to_network ==> hands_on(effects, cmd)
    &&& effects.len() == (if to_network {
        2int
    } else {
        1
    })
}

/// A deletion of something that was there is shown under its own identifier. The network hears of
/// a deleted group always, and of anything else where its group was found.
pub proof fn deleting_is_told(
    new_id: String,
    node_id: &String,
    now: i64,
    touched: bool,
    group: Option<String>,
    id: String,
    gone_group: Vec<Effect>,
    gone_workspace: Vec<Effect>,
    gone_board: Vec<Effect>,
    gone_chat: Vec<Effect>,
)
    requires
        call_ensures(
            command::command_effects,
            (CommandMsg::DeleteGroup { id }, new_id, node_id, now, touched, group),
            gone_group,
        ),
        call_ensures(
            command::command_effects,
            (CommandMsg::DeleteWorkspace { id }, new_id, node_id, now, touched, group),
            gone_workspace,
        ),
        call_ensures(
            command::command_effects,
            (CommandMsg::DeleteBoard { id }, new_id, node_id, now, touched, group),
            gone_board,
        ),
        call_ensures(
            command::command_effects,
            (CommandMsg::DeleteChat { id }, new_id, node_id, now, touched, group),
            gone_chat,
        ),
    ensures
        !touched ==> gone_group@.len() == 0 && gone_workspace@.len() == 0 && gone_board@.len() == 0
            && gone_chat@.len() == 0,
        touched ==> deletes(
            gone_group@,
            SwiftEvent::GroupDeleted { id },
            NetworkCommand::DeleteGroup { id },
            true,
        ),
        touched ==> deletes(
            gone_workspace@,
            SwiftEvent::WorkspaceDeleted { id },
            NetworkCommand::DeleteWorkspace { id },
            group is Some,
        ),
        touched ==> deletes(
            gone_board@,
            SwiftEvent::BoardDeleted { id },
            NetworkCommand::DeleteBoard { id },
            group is Some,
        ),
        touched ==> deletes(
            gone_chat@,
            SwiftEvent::ChatDeleted { id },
            NetworkCommand::DeleteChat { id },
            group is Some,
        ),
{
    if touched {
        assert(gone_group@[0] is Emit && gone_group@[1] is Send);
        assert(gone_workspace@[0] is Emit && gone_board@[0] is Emit && gone_chat@[0] is Emit);
        if group is Some {
            assert(gone_workspace@[1] is Send && gone_board@[1] is Send && gone_chat@[1] is Send);
        }
    }
}

/// A direct message goes to the peer it was written to, is stored as sent by this node and is shown
/// as such: all three with its own text. Starting a direct chat opens a stream to the peer.
pub proof fn a_direct_message_goes_to_its_peer(
    node_id: &String,
    clock: &str,
    now: i64,
    touched: bool,
    group: Option<String>,
    peer_id: String,
    workspace_id: String,
    message: String,
    parent_id: Option<String>,
    plan: CommandPlan,
    effects: Vec<Effect>,
    started: Vec<Effect>,
    t: Tables,
)
    requires
        call_ensures(
            command::plan_command,
            (
                &CommandMsg::SendDirectMessage { peer_id, workspace_id, message, parent_id },
                node_id,
                clock,
                now,
            ),
            plan,
        ),
        call_ensures(
            command::command_effects,
            (
                CommandMsg::SendDirectMessage { peer_id, workspace_id, message, parent_id },
                plan.id,
                node_id,
                now,
                touched,
                group,
            ),
            effects,
        ),
        call_ensures(
            command::command_effects,
            (
                CommandMsg::StartDirectChat { peer_id, workspace_id },
                plan.id,
                node_id,
                now,
                touched,
                group,
            ),
            started,
        ),
    ensures
        ({
            let after = tables::apply_all(plan.statements@, t);
            let row = after.messages[plan.id@];
            &&& after == Tables { messages: after.messages, ..t }
            &&& forall|k: Seq<char>| #[trigger]
                t.messages.dom().contains(k) ==> after.messages.dom().contains(k)
                    && after.messages[k] == t.messages[k]
            &&& after.messages.dom() == t.messages.dom().insert(plan.id@)
            &&& !t.messages.dom().contains(plan.id@) ==> {
                &&& row.peer_id@ == peer_id@
                &&& row.workspace_id@ == workspace_id@
                &&& row.message@ == message@
                &&& row.parent_id == parent_id
                &&& row.is_outgoing
                &&& row.timestamp == now
            }
        }),
        hands_on(
            effects@,
            NetworkCommand::SendDirectChat { peer_id, workspace_id, message, parent_id },
        ),
        shows(
            effects@,
            SwiftEvent::DirectMessageReceived {
                id: plan.id,
                peer_id,
                message,
                timestamp: now,
                is_incoming: false,
            },
        ),
        effects@.len() == 2,
        started@ == seq![
            Effect::Send(NetworkCommand::StartChatStream { peer_id, workspace_id }),
        ],
{
    assert(plan.statements@ =~= seq![plan.statements@[0]]);
    lemma_apply_one(plan.statements@[0], t);
    let after = tables::apply_all(plan.statements@, t);
    assert(after.messages.dom() =~= t.messages.dom().insert(plan.id@));
    assert(effects@[0] is Send && effects@[1] is Emit);
}

proof fn lemma_apply_one(s: Statement, t: Tables)
    ensures
        tables::apply_all(seq![s], t) == s.apply(t),
{
    reveal_with_fuel(tables::apply_all, 2);
    assert(seq![s].drop_last() =~= Seq::<Statement>::empty());
}

/// What the sender of a command has in its tables afterwards is what a peer has that hears of it,
/// whatever the command: the rows a command writes and the event it is told by say the same.
pub proof fn the_sender_stores_what_it_tells(
    msg: CommandMsg,
    node_id: &String,
    clock: &str,
    now: i64,
    touched: bool,
    group: Option<String>,
    plan: CommandPlan,
    effects: Vec<Effect>,
    group_id: String,
    event: NetworkEvent,
    heard_at: i64,
    heard: Vec<Statement>,
    t: Tables,
)
    requires
        call_ensures(command::plan_command, (&msg, node_id, clock, now), plan),
        call_ensures(
            command::command_effects,
            (msg, plan.id, node_id, now, touched, group),
            effects,
        ),
        hands_on(effects@, NetworkCommand::Broadcast { group_id, event }) || shows(
            effects@,
            SwiftEvent::Network(event),
        ),
        call_ensures(gossip::event_statements, (&event, heard_at), heard),
    ensures
        tables::apply_all(heard@, t) == tables::apply_all(plan.statements@, t),
        hands_on(effects@, NetworkCommand::Broadcast { group_id, event }) ==> shows(
            effects@,
            SwiftEvent::Network(event),
        ),
{
    if hands_on(effects@, NetworkCommand::Broadcast { group_id, event }) {
        let k = choose|k: int|
            0 <= k < effects@.len() && effects@[k] == Effect::Send(
                NetworkCommand::Broadcast { group_id, event },
            );
        lemma_told(msg, plan.id, *node_id, now, touched, group, event, k);
        if effects@[0] is Emit {
            assert(effects@[0] == Effect::Emit(SwiftEvent::Network(event)));
        } else {
            assert(effects@[2] == Effect::Emit(SwiftEvent::Network(event)));
        }
    } else {
        let k = choose|k: int|
            0 <= k < effects@.len() && effects@[k] == Effect::Emit(SwiftEvent::Network(event));
        lemma_told(msg, plan.id, *node_id, now, touched, group, event, k);
    }
    replication::peers_store_what_the_sender_stored(msg, plan.id, *node_id, now, heard_at, t);
}

proof fn lemma_told(
    msg: CommandMsg,
    id: String,
    node_id: String,
    now: i64,
    touched: bool,
    group: Option<String>,
    event: NetworkEvent,
    k: int,
)
    requires
        0 <= k < command::effects_of(msg, id, node_id, now, touched, group).len(),
        ({
            let e = command::effects_of(msg, id, node_id, now, touched, group)[k];
            ||| e == Effect::Emit(SwiftEvent::Network(event))
            ||| e is Send && e->Send_0 is Broadcast && e->Send_0->Broadcast_event == event
        }),
    ensures
        replication::told_as(msg, id, node_id, now) == Some(event),
        command::announcement(msg, id, node_id, now) == Some(event),
{
}

/// A deletion leaves the tables of the sender as it leaves those of a peer that hears of it.
pub proof fn the_sender_deletes_what_it_tells(
    id: String,
    node_id: &String,
    clock: &str,
    now: i64,
    heard_at: i64,
    group: CommandPlan,
    workspace: CommandPlan,
    board: CommandPlan,
    chat: CommandPlan,
    heard_group: Vec<Statement>,
    heard_workspace: Vec<Statement>,
    heard_board: Vec<Statement>,
    heard_chat: Vec<Statement>,
    t: Tables,
)
    requires
        call_ensures(
            command::plan_command,
            (&CommandMsg::DeleteGroup { id }, node_id, clock, now),
            group,
        ),
        call_ensures(
            command::plan_command,
            (&CommandMsg::DeleteWorkspace { id }, node_id, clock, now),
            workspace,
        ),
        call_ensures(
            command::plan_command,
            (&CommandMsg::DeleteBoard { id }, node_id, clock, now),
            board,
        ),
        call_ensures(
            command::plan_command,
            (&CommandMsg::DeleteChat { id }, node_id, clock, now),
            chat,
        ),
        call_ensures(
            gossip::event_statements,
            (&NetworkEvent::GroupDeleted { id }, heard_at),
            heard_group,
        ),
        call_ensures(
            gossip::event_statements,
            (&NetworkEvent::WorkspaceDeleted { id }, heard_at),
            heard_workspace,
        ),
        call_ensures(
            gossip::event_statements,
            (&NetworkEvent::BoardDeleted { id }, heard_at),
            heard_board,
        ),
        call_ensures(
            gossip::event_statements,
            (&NetworkEvent::ChatDeleted { id }, heard_at),
            heard_chat,
        ),
    ensures
        tables::apply_all(group.statements@, t) == tables::apply_all(heard_group@, t),
        tables::apply_all(workspace.statements@, t) == tables::apply_all(heard_workspace@, t),
        tables::apply_all(board.statements@, t) == tables::apply_all(heard_board@, t),
        tables::apply_all(chat.statements@, t) == tables::apply_all(heard_chat@, t),
{
    replication::peers_store_what_the_sender_stored(
        CommandMsg::DeleteGroup { id },
        group.id,
        *node_id,
        now,
        heard_at,
        t,
    );
    replication::peers_store_what_the_sender_stored(
        CommandMsg::DeleteWorkspace { id },
        workspace.id,
        *node_id,
        now,
        heard_at,
        t,
    );
    replication::peers_store_what_the_sender_stored(
        CommandMsg::DeleteBoard { id },
        board.id,
        *node_id,
        now,
        heard_at,
        t,
    );
    replication::peers_store_what_the_sender_stored(
        CommandMsg::DeleteChat { id },
        chat.id,
        *node_id,
        now,
        heard_at,
        t,
    );
}

/// The identifier of what a command creates is the digest of what it is created from: workspaces
/// and boards have one identifier per name, groups and messages one per moment. Commands that create
/// nothing give none.
pub proof fn what_is_created_has_its_identifier(
    msg: CommandMsg,
    node_id: &String,
    clock: &str,
    now: i64,
    plan: CommandPlan,
)
    requires
        call_ensures(command::plan_command, (&msg, node_id, clock, now), plan),
    ensures
        msg matches CommandMsg::CreateGroup { name, .. } ==> plan.id@ == hash::text_id(
            name@ + "-"@ + clock@,
        ),
        msg matches CommandMsg::CreateWorkspace { group_id, name } ==> plan.id@ == hash::text_id(
            "ws:"@ + group_id@ + "-"@ + name@,
        ),
        msg matches CommandMsg::CreateBoard { workspace_id, name } ==> plan.id@ == hash::text_id(
            "wb:"@ + workspace_id@ + "-"@ + name@,
        ),
        msg matches CommandMsg::SendChat { workspace_id, message, .. } ==> plan.id@
            == hash::text_id("chat:"@ + workspace_id@ + "-"@ + message@ + "-"@ + clock@),
        msg matches CommandMsg::SendDirectMessage { peer_id, workspace_id, message, .. }
            ==> plan.id@ == hash::text_id(
            "dm:"@ + peer_id@ + "-"@ + workspace_id@ + "-"@ + message@ + "-"@ + clock@,
        ),
        !(msg is CreateGroup || msg is CreateWorkspace || msg is CreateBoard || msg is SendChat
            || msg is SendDirectMessage) ==> plan.id@.len() == 0,
{
}

/// Whose group is looked up for a command, and what it reads back: the workspace, board or message
/// that it names; the history of the workspace or peer that it names.
pub proof fn commands_look_up_what_they_name(
    msg: CommandMsg,
    node_id: &String,
    clock: &str,
    now: i64,
    plan: CommandPlan,
)
    requires
        call_ensures(command::plan_command, (&msg, node_id, clock, now), plan),
    ensures
        msg matches CommandMsg::RenameWorkspace { id, .. } ==> plan.lookup
            == (GroupLookup::OfWorkspace { id }),
        msg matches CommandMsg::DeleteWorkspace { id } ==> plan.lookup == (
        GroupLookup::OfWorkspace { id }),
        msg matches CommandMsg::CreateBoard { workspace_id, .. } ==> plan.lookup == (
        GroupLookup::OfWorkspace { id: workspace_id }),
        msg matches CommandMsg::SendChat { workspace_id, .. } ==> plan.lookup == (
        GroupLookup::OfWorkspace { id: workspace_id }),
        msg matches CommandMsg::RenameBoard { id, .. } ==> plan.lookup == (GroupLookup::OfBoard {
            id,
        }),
        msg matches CommandMsg::DeleteBoard { id } ==> plan.lookup == (GroupLookup::OfBoard { id }),
        msg matches CommandMsg::DeleteChat { id } ==> plan.lookup == (GroupLookup::OfChat { id }),
        msg matches CommandMsg::LoadChatHistory { workspace_id } ==> plan.reading == (
        Reading::ChatHistory { workspace_id }),
        msg matches CommandMsg::LoadDirectMessageHistory { peer_id } ==> plan.reading == (
        Reading::MessageHistory { peer_id, limit: 100 }),
        plan.reading is Tree <==> msg is Snapshot,
        plan.reading is SeedThenTree <==> msg is SeedDemoIfEmpty,
        plan.reading is Nothing <==> !(msg is Snapshot || msg is SeedDemoIfEmpty
            || msg is LoadChatHistory || msg is LoadDirectMessageHistory),
        !(plan.reading is Nothing) || msg is StartDirectChat ==> plan.statements@.len() == 0,
        msg is CreateGroup || msg is RenameGroup || msg is DeleteGroup || msg is CreateWorkspace
            || msg is SendDirectMessage ==> plan.lookup is Nobody,
{
}

/// A chat history shows each message as its row has it, in order; so does a history of direct
/// messages, where those that this node did not send are incoming.
pub proof fn histories_show_the_rows(
    chats: &Vec<ChatRow>,
    shown: Vec<SwiftEvent>,
    messages: &Vec<MessageRow>,
    listed: Vec<SwiftEvent>,
    i: int,
    parent: Seq<char>,
)
    requires
        call_ensures(command::chat_history, (chats,), shown),
        call_ensures(command::message_history, (messages,), listed),
    ensures
        shown@.len() == chats@.len(),
        listed@.len() == messages@.len(),
        0 <= i < chats@.len() ==> ({
            let row = chats@[i];
            &&& shown@[i] matches SwiftEvent::Network(
                NetworkEvent::ChatSent { id, workspace_id, message, author, parent_id, timestamp },
            )
            &&& id@ == row.id@
            &&& workspace_id@ == row.workspace_id@
            &&& message@ == row.message@
            &&& author@ == row.author@
            &&& timestamp == row.timestamp
            &&& row.parent is None ==> parent_id is None
            &&& row.parent is Some && row.parent->0@ == encode_utf8(parent) ==> parent_id is Some
                && parent_id->0@ == parent
        }),
        0 <= i < messages@.len() ==> ({
            let row = messages@[i];
            &&& listed@[i] matches SwiftEvent::DirectMessageReceived {
                id,
                peer_id,
                message,
                timestamp,
                is_incoming,
            }
            &&& id@ == row.id@
            &&& peer_id@ == row.peer_id@
            &&& message@ == row.message@
            &&& timestamp == row.timestamp
            &&& is_incoming <==> row.is_outgoing == 0
        }),
{
    encode_utf8_valid_utf8(parent);
    encode_utf8_decode_utf8(parent);
    if 0 <= i < chats@.len() {
        assert(command::shows_chat(chats@[i], shown@[i]));
        match shown@[i] {
            SwiftEvent::Network(NetworkEvent::ChatSent { parent_id: Some(p), .. }) => {
                encode_utf8_decode_utf8(p@);
            },
            _ => {},
        }
    }
}

} // verus!
