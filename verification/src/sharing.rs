//! An uploaded file: that what is stored here and what others hear of it are one file.

use crate::actors::network_actor;
use crate::files;
use crate::files::{
    FilePlace, FileQuery, FileRequest, FileStatus, FileUpload, ScopeKind, TransferRequest,
    UploadError, UploadScope,
};
use crate::gossip;
use crate::hash;
use crate::json;
use crate::json::Json;
use crate::model::{NetworkCommand, NetworkEvent};
use crate::network::{NetworkState, Upload};
use crate::tables;
use crate::tables::{ObjectRow, Statement, Tables};
use crate::text;
use vstd::prelude::*;
use vstd::string::*;
use vstd::utf8::*;

verus! {

/// Whether an optional text is another.
pub open spec fn same_text(a: Option<Seq<char>>, b: Option<String>) -> bool {
    match b {
        Some(s) => a == Some(s@),
        None => a is None,
    }
}

/// Whether a row holds a file: where it belongs, its name, its content by digest and size, and the
/// node that has it.
pub open spec fn holds_file(
    o: ObjectRow,
    group: Option<String>,
    workspace: Option<String>,
    board: Option<String>,
    name: Seq<char>,
    bytes: Seq<u8>,
    node_id: Seq<char>,
    now: i64,
) -> bool {
    &&& o.kind is File
    &&& same_text(o.group_id, group)
    &&& same_text(o.workspace_id, workspace)
    &&& same_text(o.board_id, board)
    &&& o.name@ == name
    &&& o.hash matches Some(h) && h@ == hash::content_id(bytes)
    &&& bytes.len() <= i64::MAX ==> o.size == Some(bytes.len() as i64)
    &&& o.source_peer matches Some(p) && p@ == node_id
    &&& o.created_at == now
}

/// Whether a row differs from another at most in where the file lies on disk.
pub open spec fn same_file(a: ObjectRow, b: ObjectRow) -> bool {
    a == ObjectRow { local_path: a.local_path, ..b }
}

proof fn lemma_apply_one(s: Statement, t: Tables)
    ensures
        tables::apply_all(seq![s], t) == s.apply(t),
{
    reveal_with_fuel(tables::apply_all, 2);
    assert(seq![s].drop_last() =~= Seq::<Statement>::empty());
}

/// A file that is uploaded is stored under its own name, place and content, and lies where it was
/// put. It is told to its group, and a peer that hears of it and has no row for it stores the same
/// file, as lying nowhere.
pub proof fn an_uploaded_file_is_the_one_peers_hear_of(
    place: FilePlace,
    file_name: Option<String>,
    bytes: &Vec<u8>,
    node_id: &String,
    local_path: String,
    now: i64,
    u: FileUpload,
    group_id: String,
    event: NetworkEvent,
    heard_at: i64,
    heard: Vec<Statement>,
    t: Tables,
)
    requires
        call_ensures(
            files::record_upload,
            (place, file_name, bytes, node_id, local_path, now),
            Ok(u),
        ),
        u.broadcast == (NetworkCommand::Broadcast { group_id, event }),
        call_ensures(gossip::event_statements, (&event, heard_at), heard),
        !t.objects.dom().contains(u.file_id@),
    ensures
        u.broadcast is Broadcast,
        place.group_id == Some(group_id),
        ({
            let name = match file_name {
                Some(n) => n@,
                None => "file"@,
            };
            let here = u.statement.apply(t);
            let there = tables::apply_all(heard@, t);
            &&& u.name@ == name
            &&& u.hash@ == hash::content_id(bytes@)
            &&& u.size == bytes@.len() as u64
            &&& u.file_id@ == hash::text_id(
                "file:"@ + group_id@ + ":"@ + name + ":"@ + text::int_text(now as int),
            )
            &&& here.objects.dom().contains(u.file_id@)
            &&& here.objects[u.file_id@].local_path == Some(local_path)
            &&& holds_file(
                here.objects[u.file_id@],
                place.group_id,
                place.workspace_id,
                place.board_id,
                name,
                bytes@,
                node_id@,
                now,
            )
            &&& there.objects.dom().contains(u.file_id@)
            &&& same_file(there.objects[u.file_id@], here.objects[u.file_id@])
            &&& there.objects[u.file_id@].local_path is None
        }),
{
    assert(heard@ =~= seq![heard@[0]]);
    lemma_apply_one(heard@[0], t);
}

/// An upload whose group is known is accepted and told; one whose group is not known is refused.
pub proof fn uploads_need_a_group(
    place: FilePlace,
    file_name: Option<String>,
    bytes: &Vec<u8>,
    node_id: &String,
    local_path: String,
    now: i64,
    r: Result<FileUpload, UploadError>,
)
    requires
        call_ensures(files::record_upload, (place, file_name, bytes, node_id, local_path, now), r),
    ensures
        r is Ok <==> place.group_id is Some,
        r matches Err(e) ==> e is NoGroup,
        r matches Ok(u) ==> u.broadcast is Broadcast && u.broadcast->Broadcast_group_id
            == place.group_id->0,
{
}

/// Whether a network upload stores a file and tells a group of it, so that peers without a row for
/// it store the same.
pub open spec fn is_shared(
    state: NetworkState,
    group: Option<String>,
    workspace: Option<String>,
    file_name: Option<String>,
    bytes: Seq<u8>,
    now: i64,
    u: Upload,
    t: Tables,
) -> bool {
    let name = match file_name {
        Some(n) => n@,
        None => "file"@,
    };
    let here = u.statement.apply(t);
    &&& u.name@ == name
    &&& u.hash@ == hash::content_id(bytes)
    &&& here.objects.dom().contains(u.id@)
    &&& holds_file(
        here.objects[u.id@],
        group,
        workspace,
        None,
        name,
        bytes,
        state.node_id@,
        now,
    )
    &&& here.objects[u.id@].local_path is None
    &&& u.publish is Some <==> group is Some && state.topics@.contains(group->0@)
    &&& u.publish matches Some(p) ==> Some(p.0) == group
}

/// A file that goes to a group or a workspace is stored as that, under the digest of the owner and
/// the path, and told to the group where its topic is joined.
pub proof fn network_uploads_are_stored_and_told(
    state: &NetworkState,
    owner: String,
    group: Option<String>,
    path: &str,
    file_name: Option<String>,
    bytes: &Vec<u8>,
    now: i64,
    to_group: Upload,
    to_workspace: Upload,
    t: Tables,
)
    requires
        call_ensures(
            NetworkState::upload_to_group,
            (state, owner, path, file_name, bytes, now),
            to_group,
        ),
        call_ensures(
            NetworkState::upload_to_workspace,
            (state, owner, group, path, file_name, bytes, now),
            to_workspace,
        ),
    ensures
        to_group.id@ == hash::text_id("file:"@ + owner@ + ":"@ + path@),
        to_workspace.id@ == hash::text_id("file:"@ + owner@ + ":"@ + path@),
        is_shared(*state, Some(owner), None, file_name, bytes@, now, to_group, t),
        is_shared(*state, group, Some(owner), file_name, bytes@, now, to_workspace, t),
{
}

/// A peer that hears of a network upload and has no row for the file stores what the sender stored.
pub proof fn peers_store_network_uploads(
    state: &NetworkState,
    owner: String,
    group: Option<String>,
    path: &str,
    file_name: Option<String>,
    bytes: &Vec<u8>,
    now: i64,
    up: Upload,
    heard_at: i64,
    heard: Vec<Statement>,
    t: Tables,
)
    requires
        call_ensures(
            NetworkState::upload_to_group,
            (state, owner, path, file_name, bytes, now),
            up,
        ) || call_ensures(
            NetworkState::upload_to_workspace,
            (state, owner, group, path, file_name, bytes, now),
            up,
        ),
        up.publish is Some,
        call_ensures(gossip::event_statements, (&(up.publish->0).1, heard_at), heard),
        !t.objects.dom().contains(up.id@),
    ensures
        tables::apply_all(heard@, t) == up.statement.apply(t),
{
    assert(heard@ =~= seq![heard@[0]]);
    lemma_apply_one(heard@[0], t);
    assert(tables::apply_all(heard@, t).objects =~= up.statement.apply(t).objects);
    assert(tables::apply_all(heard@, t) =~= up.statement.apply(t));
}

/// Whether the member under a key is a text.
pub open spec fn holds_text(scope: Json, key: Seq<char>) -> bool {
    scope.member(key) matches Some(Json::Text(_))
}

/// Whether the member under a key is this text.
pub open spec fn says(scope: Json, key: Seq<char>, value: Seq<char>) -> bool {
    scope.member(key) matches Some(Json::Text(v)) && v@ == value
}

/// Where an upload is meant to go: the kind that its type names, and the identifier under the
/// member of that kind. Any other type is refused.
pub proof fn scopes_name_their_place(scope: &Json, r: Result<UploadScope, UploadError>)
    requires
        call_ensures(files::upload_scope, (scope,), r),
    ensures
        says(*scope, "type"@, "Group"@) ==> r is Ok && r->Ok_0.kind is Group,
        says(*scope, "type"@, "Workspace"@) ==> r is Ok && r->Ok_0.kind is Workspace,
        says(*scope, "type"@, "Board"@) ==> r is Ok && r->Ok_0.kind is Board,
        r is Ok ==> says(*scope, "type"@, "Group"@) || says(*scope, "type"@, "Workspace"@) || says(
            *scope,
            "type"@,
            "Board"@,
        ),
        r matches Err(e) ==> e is UnknownScope,
        r matches Ok(s) ==> ({
            let key = if s.kind is Group {
                "group_id"@
            } else if s.kind is Workspace {
                "workspace_id"@
            } else {
                "board_id"@
            };
            &&& s.id is Some <==> holds_text(*scope, key)
            &&& s.id is Some ==> says(*scope, key, s.id->0@)
        }),
{
    lemma_scopes_differ();
}

proof fn lemma_scopes_differ()
    ensures
        "Group"@.len() == 5,
        "Workspace"@.len() == 9,
        "Board"@.len() == 5,
        "Group"@ != "Board"@,
{
    reveal_strlit("Group");
    reveal_strlit("Workspace");
    reveal_strlit("Board");
    assert("Group"@[0] == 'G' && "Board"@[0] == 'B');
}

/// A file of a group belongs to that group alone; one of a workspace to the workspace and its
/// group; one of a board to the board, its workspace and its group, where they were found.
pub proof fn files_belong_to_their_scope(
    kind: ScopeKind,
    id: Option<String>,
    group: Option<String>,
    home: Option<(String, String)>,
    r: FilePlace,
)
    requires
        call_ensures(files::resolve_place, (UploadScope { kind, id }, group, home), r),
    ensures
        kind is Group ==> r.group_id == id && r.workspace_id is None && r.board_id is None,
        kind is Workspace ==> r.workspace_id == id && r.board_id is None,
        kind is Workspace && id is Some ==> r.group_id == group,
        kind is Workspace && id is None ==> r.group_id is None,
        kind is Board ==> r.board_id == id,
        kind is Board && id is Some && home is Some ==> r.workspace_id == Some((home->0).0)
            && r.group_id == Some((home->0).1),
        kind is Board && (id is None || home is None) ==> r.workspace_id is None
            && r.group_id is None,
{
}

/// A file is fetched, from the peer that has it and by its hash, exactly where it is known and not
/// here; an unfinished transfer goes on where it stopped.
pub proof fn missing_files_are_fetched(
    file_id: String,
    info: Option<(String, String)>,
    is_local: bool,
    received: Option<i64>,
    whole: FileRequest,
    rest: TransferRequest,
)
    requires
        call_ensures(files::request_file, (file_id, info, is_local), whole),
        call_ensures(files::request_transfer, (file_id, info, is_local, received), rest),
    ensures
        whole is Unknown <==> info is None,
        rest is Unknown <==> info is None,
        whole is Here <==> info is Some && is_local,
        rest is Here <==> info is Some && is_local,
        whole matches FileRequest::Fetch(cmd) ==> {
            &&& cmd matches NetworkCommand::RequestFileDownload { file_id: f, hash, source_peer }
            &&& f@ == file_id@
            &&& Some((hash, source_peer)) == info
        },
        rest matches TransferRequest::Fetch(cmd) ==> {
            &&& cmd matches network_actor::NetworkCommand::RequestFileDownload {
                file_id: f,
                hash,
                source_peer,
                resume_offset,
            }
            &&& f@ == file_id@
            &&& Some((hash, source_peer)) == info
            &&& received is None ==> resume_offset == 0
            &&& received is Some && received->0 >= 0 ==> resume_offset == received->0
        },
{
}

/// A file is here where a path is recorded and something is there.
pub proof fn files_are_here_or_elsewhere(local_path: Option<String>, on_disk: bool, r: FileStatus)
    requires
        call_ensures(files::file_status, (local_path, on_disk), r),
    ensures
        r is Local <==> local_path is Some && on_disk,
        r matches FileStatus::Local { local_path: p } ==> Some(p) == local_path,
{
}

/// A query for files names its kind by its type, and what it is about by the first of its members
/// "id", "group_id", "workspace_id" and "board_id" that is a text.
pub proof fn queries_name_what_they_are_about(text: &str, scope: Json, r: Option<FileQuery>)
    requires
        json::parsed_json(text@) == Some(scope),
        call_ensures(files::parse_file_query, (text,), r),
    ensures
        r is Some <==> says(scope, "type"@, "Group"@) || says(scope, "type"@, "Workspace"@)
            || says(scope, "type"@, "Board"@),
        r matches Some(q) ==> ({
            &&& q.kind is Group <==> says(scope, "type"@, "Group"@)
            &&& q.kind is Workspace <==> says(scope, "type"@, "Workspace"@)
            &&& q.kind is Board <==> says(scope, "type"@, "Board"@)
            &&& holds_text(scope, "id"@) ==> says(scope, "id"@, q.id@)
            &&& !holds_text(scope, "id"@) && holds_text(scope, "group_id"@) ==> says(
                scope,
                "group_id"@,
                q.id@,
            )
            &&& !holds_text(scope, "id"@) && !holds_text(scope, "group_id"@) && holds_text(
                scope,
                "workspace_id"@,
            ) ==> says(scope, "workspace_id"@, q.id@)
            &&& !holds_text(scope, "id"@) && !holds_text(scope, "group_id"@) && !holds_text(
                scope,
                "workspace_id"@,
            ) && holds_text(scope, "board_id"@) ==> says(scope, "board_id"@, q.id@)
            &&& !holds_text(scope, "id"@) && !holds_text(scope, "group_id"@) && !holds_text(
                scope,
                "workspace_id"@,
            ) && !holds_text(scope, "board_id"@) ==> q.id@.len() == 0
        }),
{
    lemma_scopes_differ();
}

} // verus!
