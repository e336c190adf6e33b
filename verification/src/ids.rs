//! How groups, workspaces, boards, messages, files and topics get their identifiers.

use crate::hash;
use crate::text;
use vstd::prelude::*;
use vstd::string::*;
use vstd::utf8::*;

verus! {

/// Puts two texts around a separator.
pub(crate) fn joined(a: &str, sep: &str, b: &str) -> (r: String)
    ensures
        r@ == a@ + sep@ + b@,
{
    let mut s = a.to_owned();
    s.append(sep);
    s.append(b);
    s
}

/// The identifier of a group: it depends on the name and on the time of creation.
pub open spec fn group_id(name: Seq<char>, clock: Seq<char>) -> Seq<char> {
    hash::text_id(name + "-"@ + clock)
}

/// The identifier of a workspace: one per name within a group.
pub open spec fn workspace_id(group_id: Seq<char>, name: Seq<char>) -> Seq<char> {
    hash::text_id("ws:"@ + group_id + "-"@ + name)
}

/// The identifier of a board: one per name within a workspace.
pub open spec fn board_id(workspace_id: Seq<char>, name: Seq<char>) -> Seq<char> {
    hash::text_id("wb:"@ + workspace_id + "-"@ + name)
}

/// The identifier of a chat message in a channel: a workspace, or a peer of a direct stream.
pub open spec fn chat_id(channel: Seq<char>, message: Seq<char>, clock: Seq<char>) -> Seq<char> {
    hash::text_id("chat:"@ + channel + "-"@ + message + "-"@ + clock)
}

/// The identifier of a direct message that belongs to a workspace.
pub open spec fn direct_message_id(
    peer_id: Seq<char>,
    workspace_id: Seq<char>,
    message: Seq<char>,
    clock: Seq<char>,
) -> Seq<char> {
    hash::text_id("dm:"@ + peer_id + "-"@ + workspace_id + "-"@ + message + "-"@ + clock)
}

/// The identifier of a direct message on a peer stream.
pub open spec fn peer_message_id(peer_id: Seq<char>, message: Seq<char>, clock: Seq<char>) -> Seq<
    char,
> {
    hash::text_id("dm:"@ + peer_id + "-"@ + message + "-"@ + clock)
}

/// The identifier of a file uploaded by path into a group or workspace.
pub open spec fn path_file_id(owner: Seq<char>, path: Seq<char>) -> Seq<char> {
    hash::text_id("file:"@ + owner + ":"@ + path)
}

/// The identifier of a file uploaded by name at a time.
pub open spec fn named_file_id(group_id: Seq<char>, name: Seq<char>, now: int) -> Seq<char> {
    hash::text_id("file:"@ + group_id + ":"@ + name + ":"@ + text::int_text(now))
}

/// The bytes of a gossip topic.
pub open spec fn topic(name: Seq<char>) -> Seq<u8> {
    hash::blake3_digest(encode_utf8(name))
}

/// The bytes of the topic of a group.
pub open spec fn group_topic(group_id: Seq<char>) -> Seq<u8> {
    topic("cyan/group/"@ + group_id)
}

/// The bytes of the topic on which nodes with one discovery key find each other.
pub open spec fn discovery_topic(key: Seq<char>) -> Seq<u8> {
    topic("cyan/discovery/"@ + key)
}

pub fn new_group_id(name: &str, clock: &str) -> (r: String)
    ensures
        r@ == group_id(name@, clock@),
{
    hash::hash_text(joined(name, "-", clock).as_str())
}

pub fn new_workspace_id(group: &str, name: &str) -> (r: String)
    ensures
        r@ == workspace_id(group@, name@),
{
    let mut s = "ws:".to_owned();
    s.append(group);
    hash::hash_text(joined(s.as_str(), "-", name).as_str())
}

pub fn new_board_id(workspace: &str, name: &str) -> (r: String)
    ensures
        r@ == board_id(workspace@, name@),
{
    let mut s = "wb:".to_owned();
    s.append(workspace);
    hash::hash_text(joined(s.as_str(), "-", name).as_str())
}

pub fn new_chat_id(channel: &str, message: &str, clock: &str) -> (r: String)
    ensures
        r@ == chat_id(channel@, message@, clock@),
{
    let mut s = "chat:".to_owned();
    s.append(channel);
    s.append("-");
    s.append(message);
    hash::hash_text(joined(s.as_str(), "-", clock).as_str())
}

pub fn new_direct_message_id(peer_id: &str, workspace: &str, message: &str, clock: &str) -> (r:
    String)
    ensures
        r@ == direct_message_id(peer_id@, workspace@, message@, clock@),
{
    let mut s = "dm:".to_owned();
    s.append(peer_id);
    s.append("-");
    s.append(workspace);
    s.append("-");
    s.append(message);
    hash::hash_text(joined(s.as_str(), "-", clock).as_str())
}

pub fn new_peer_message_id(peer_id: &str, message: &str, clock: &str) -> (r: String)
    ensures
        r@ == peer_message_id(peer_id@, message@, clock@),
{
    let mut s = "dm:".to_owned();
    s.append(peer_id);
    s.append("-");
    s.append(message);
    hash::hash_text(joined(s.as_str(), "-", clock).as_str())
}

pub fn new_path_file_id(owner: &str, path: &str) -> (r: String)
    ensures
        r@ == path_file_id(owner@, path@),
{
    let mut s = "file:".to_owned();
    s.append(owner);
    hash::hash_text(joined(s.as_str(), ":", path).as_str())
}

pub fn new_named_file_id(group: &str, name: &str, now: i64) -> (r: String)
    ensures
        r@ == named_file_id(group@, name@, now as int),
{
    let mut s = "file:".to_owned();
    s.append(group);
    s.append(":");
    s.append(name);
    hash::hash_text(joined(s.as_str(), ":", text::i64_text(now).as_str()).as_str())
}

/// The topic of a name.
pub fn make_topic_id(name: &str) -> (r: [u8; 32])
    ensures
        r@ == topic(name@),
{
    hash::blake3_hash(name.as_bytes())
}

/// The topic of a group.
pub fn make_group_topic_id(group: &str) -> (r: [u8; 32])
    ensures
        r@ == group_topic(group@),
{
    let mut s = "cyan/group/".to_owned();
    s.append(group);
    make_topic_id(s.as_str())
}

/// The topic of a discovery key.
pub fn make_discovery_topic_id(discovery_key: &str) -> (r: [u8; 32])
    ensures
        r@ == discovery_topic(discovery_key@),
{
    let mut s = "cyan/discovery/".to_owned();
    s.append(discovery_key);
    make_topic_id(s.as_str())
}

} // verus!
