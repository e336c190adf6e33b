//! What texts, numbers and values come out as: digits, cuts, members, digests and frames.

use crate::files;
use crate::files::UploadError;
use crate::frame;
use crate::frame::FrameStep;
use crate::hash;
use crate::hash::KeyError;
use crate::ids;
use crate::import_orchestrator::ConfigError;
use crate::integration_bridge::StartError;
use crate::invitation;
use crate::invitation::{Invitation, InvitationRecord};
use crate::invite::InviteError;
use crate::json;
use crate::json::Json;
use crate::model::{Real, SwiftEvent, Workspace};
use crate::snapshot;
use crate::snapshot::WorkspaceFilter;
use crate::strings;
use crate::text;
use vstd::prelude::*;
use vstd::string::*;
use vstd::utf8::*;

verus! {

/// The number that decimal digits stand for.
pub open spec fn value_of(s: Seq<char>) -> int
    decreases s.len(),
{
    if s.len() == 0 {
        0
    } else {
        10 * value_of(s.drop_last()) + (s.last() as int - '0' as int)
    }
}

/// Whether a text is a number in decimal: digits only, and none too many in front.
pub open spec fn is_decimal(s: Seq<char>) -> bool {
    &&& s.len() > 0
    &&& forall|i: int| 0 <= i < s.len() ==> '0' <= #[trigger] s[i] <= '9'
    &&& s.len() > 1 ==> s[0] != '0'
}

proof fn lemma_decimal(n: nat)
    ensures
        is_decimal(text::decimal(n)),
        value_of(text::decimal(n)) == n,
        n > 0 ==> text::decimal(n)[0] != '0',
    decreases n,
{
    let s = text::decimal(n);
    if n < 10 {
        assert(s.drop_last() =~= Seq::empty());
        assert(s.last() as int - '0' as int == n);
        assert(value_of(s.drop_last()) == 0);
    } else {
        lemma_decimal(n / 10);
        let head = text::decimal(n / 10);
        assert(s.drop_last() =~= head);
        assert(s.last() as int - '0' as int == n % 10);
        assert(s[0] == head[0]);
    }
}

/// A number is written in decimal and reads back as itself; a negative one has a minus sign in
/// front of its digits.
pub proof fn numbers_read_back(n: u64, written: String, z: i64, signed: String)
    requires
        call_ensures(text::u64_text, (n,), written),
        call_ensures(text::i64_text, (z,), signed),
    ensures
        is_decimal(written@),
        value_of(written@) == n,
        z >= 0 ==> is_decimal(signed@) && value_of(signed@) == z,
        z < 0 ==> signed@.len() > 1 && signed@[0] == '-' && is_decimal(signed@.drop_first())
            && value_of(signed@.drop_first()) == -z,
{
    lemma_decimal(n as nat);
    if z >= 0 {
        lemma_decimal(z as nat);
    } else {
        lemma_decimal((-z) as nat);
        assert(signed@.drop_first() =~= text::decimal((-z) as nat));
    }
}

/// What is cut from a text is its beginning, as much as fits in whole characters: all of it where
/// it fits, and with the next character it would not fit any more.
pub proof fn a_cut_is_the_beginning(s: &str, max_bytes: usize, r: &str)
    requires
        call_ensures(text::truncate_str, (s, max_bytes), r),
    ensures
        r@.len() <= s@.len(),
        forall|i: int| 0 <= i < r@.len() ==> r@[i] == s@[i],
        encode_utf8(r@).len() <= max_bytes,
        r@.len() < s@.len() ==> encode_utf8(s@.take(r@.len() as int + 1)).len() > max_bytes,
        encode_utf8(s@).len() <= max_bytes ==> r@ == s@,
{
    assert forall|i: int| 0 <= i < r@.len() implies r@[i] == s@[i] by {
        assert(s@.take(r@.len() as int)[i] == s@[i]);
    }
    if encode_utf8(s@).len() <= max_bytes {
        assert(s@.take(s@.len() as int) =~= s@);
        assert(encode_utf8(s@.take(s@.len() as int)).len() <= max_bytes);
        assert(r@ =~= s@);
    }
}

/// Trimming takes white space from both ends of a text and nothing else; what is left neither
/// begins nor ends with white space. A text is blank where nothing would be left.
pub proof fn trimming_takes_white_space(s: &str, r: String, blank: bool)
    requires
        call_ensures(strings::trim, (s,), r),
        call_ensures(strings::is_blank, (s,), blank),
    ensures
        exists|a: Seq<char>, b: Seq<char>|
            s@ == #[trigger] (a + r@ + b) && strings::all_white(a) && strings::all_white(b),
        r@.len() > 0 ==> !strings::is_white(r@[0]) && !strings::is_white(r@.last()),
        blank <==> r@.len() == 0,
{
    let (a, b) = choose|a: int, b: int| #[trigger] strings::cuts(s@, r@, a, b);
    let x = s@.subrange(0, a);
    let y = s@.subrange(b, s@.len() as int);
    assert(s@ =~= x + r@ + y);
    if r@.len() == 0 {
        assert forall|i: int| 0 <= i < s@.len() implies strings::is_white(#[trigger] s@[i]) by {
            if i < a {
                assert(x[i] == s@[i]);
            } else {
                assert(y[i - b] == s@[i]);
            }
        }
    } else {
        assert(s@[a] == r@[0]);
    }
}

/// White space is the space, the control characters from tab to carriage return, the next-line
/// character and the spaces and separators of Unicode.
pub proof fn white_space_is_what_separates(c: char, r: bool)
    requires
        call_ensures(strings::white, (c,), r),
    ensures
        c == ' ' || c == '\t' || c == '\n' || c == '\r' || c == '\u{b}' || c == '\u{c}' || c
            == '\u{85}' || c == '\u{a0}' || c == '\u{1680}' || c == '\u{2028}' || c == '\u{2029}'
            || c == '\u{202f}' || c == '\u{205f}' || c == '\u{3000}' || '\u{2000}' <= c
            <= '\u{200a}' ==> r,
        '!' <= c <= '~' ==> !r,
        c > '\u{3000}' ==> !r,
        '\u{a1}' <= c <= '\u{167f}' ==> !r,
        c == '\u{200b}' || c == '\u{feff}' ==> !r,
{
}

/// A text contains a pattern where it is what stands before, the pattern and what stands behind; it
/// starts with the pattern where nothing stands before.
pub proof fn patterns_stand_in_texts(
    s: &str,
    pat: &str,
    inside: bool,
    in_front: bool,
    before: Seq<char>,
    after: Seq<char>,
)
    requires
        call_ensures(strings::contains, (s, pat), inside),
        call_ensures(strings::starts_with, (s, pat), in_front),
    ensures
        s@ == before + pat@ + after ==> inside,
        s@ == pat@ + after ==> in_front,
        in_front ==> inside,
        in_front ==> pat@.len() <= s@.len() && s@.take(pat@.len() as int) == pat@,
        inside ==> exists|a: Seq<char>, b: Seq<char>| s@ == #[trigger] (a + pat@ + b),
{
    if s@ == before + pat@ + after {
        let at = before.len() as int;
        assert(s@.subrange(at, at + pat@.len()) =~= pat@);
        assert(strings::stands_at(s@, pat@, at));
    }
    if s@ == pat@ + after {
        assert(s@.subrange(0, pat@.len() as int) =~= pat@);
    }
    if in_front {
        assert(strings::stands_at(s@, pat@, 0));
        assert(s@.take(pat@.len() as int) =~= s@.subrange(0, pat@.len() as int));
    }
    if inside {
        let i = choose|i: int| #[trigger] strings::stands_at(s@, pat@, i);
        assert(s@ =~= s@.take(i) + s@.subrange(i, i + pat@.len()) + s@.skip(i + pat@.len()));
        assert(s@ == s@.take(i) + pat@ + s@.skip(i + pat@.len()));
    }
}

/// Replacing goes from left to right: where the pattern stands in front, its replacement comes and
/// then what is replaced in the rest; otherwise the first character stays. A text without the
/// pattern stays as it is.
pub proof fn replacing_goes_from_left_to_right(
    s: &str,
    rest: &str,
    pat: &str,
    by: &str,
    r: String,
    q: String,
    held: bool,
)
    requires
        pat@.len() > 0,
        call_ensures(strings::replace, (s, pat, by), r),
        call_ensures(strings::replace, (rest, pat, by), q),
        call_ensures(strings::contains, (s, pat), held),
    ensures
        s@ == pat@ + rest@ ==> r@ == by@ + q@,
        s@.len() > 0 && s@.drop_first() == rest@ && !(pat@.len() <= s@.len() && s@.take(
            pat@.len() as int,
        ) == pat@) ==> r@ == seq![s@[0]] + q@,
        s@.len() == 0 ==> r@.len() == 0,
        !held ==> r@ == s@,
{
    if s@ == pat@ + rest@ {
        assert(s@.subrange(0, pat@.len() as int) =~= pat@);
        assert(s@.skip(pat@.len() as int) =~= rest@);
    }
    if s@.len() > 0 && s@.drop_first() == rest@ && !(pat@.len() <= s@.len() && s@.take(
        pat@.len() as int,
    ) == pat@) {
        assert(s@.skip(1) =~= s@.drop_first());
        if strings::stands_at(s@, pat@, 0) {
            assert(s@.take(pat@.len() as int) =~= s@.subrange(0, pat@.len() as int));
        }
    }
    if !held {
        lemma_nothing_replaced(s@, pat@, by@);
    }
}

proof fn lemma_nothing_replaced(s: Seq<char>, pat: Seq<char>, by: Seq<char>)
    requires
        !strings::has_part(s, pat),
    ensures
        strings::replaced(s, pat, by) == s,
    decreases s.len(),
{
    if s.len() > 0 && pat.len() > 0 {
        assert(!strings::stands_at(s, pat, 0));
        let rest = s.skip(1);
        assert(!strings::has_part(rest, pat)) by {
            if strings::has_part(rest, pat) {
                let i = choose|i: int| #[trigger] strings::stands_at(rest, pat, i);
                assert(s.subrange(i + 1, i + 1 + pat.len()) =~= rest.subrange(i, i + pat.len()));
                assert(strings::stands_at(s, pat, i + 1));
            }
        }
        lemma_nothing_replaced(rest, pat, by);
        assert(seq![s[0]] + rest =~= s);
    }
}

/// Texts are ordered by their bytes: a beginning comes before the whole, and otherwise the first
/// byte that differs decides. The order is strict and total.
pub proof fn the_first_difference_decides(
    a: &str,
    b: &str,
    r: bool,
    q: bool,
    common: Seq<u8>,
    x: Seq<u8>,
    y: Seq<u8>,
)
    requires
        call_ensures(strings::before, (a, b), r),
        call_ensures(strings::before, (b, a), q),
        encode_utf8(a@) == common + x,
        encode_utf8(b@) == common + y,
    ensures
        x.len() == 0 && y.len() > 0 ==> r,
        x.len() > 0 && y.len() > 0 && x[0] < y[0] ==> r,
        x.len() > 0 && y.len() > 0 && x[0] > y[0] ==> !r,
        y.len() == 0 ==> !r,
        !(r && q),
        a@ != b@ ==> r || q,
{
    lemma_common(common, x, y);
    strings::bytes_are_ordered(encode_utf8(a@), encode_utf8(b@));
    encode_utf8_decode_utf8(a@);
    encode_utf8_decode_utf8(b@);
}

proof fn lemma_common(common: Seq<u8>, x: Seq<u8>, y: Seq<u8>)
    ensures
        strings::bytes_before(common + x, common + y) == strings::bytes_before(x, y),
    decreases common.len(),
{
    if common.len() == 0 {
        assert(common + x =~= x);
        assert(common + y =~= y);
    } else {
        lemma_common(common.drop_first(), x, y);
        assert((common + x).drop_first() =~= common.drop_first() + x);
        assert((common + y).drop_first() =~= common.drop_first() + y);
    }
}

proof fn lemma_member(members: Seq<(String, Json)>, from: int, i: int)
    requires
        0 <= from <= i < members.len(),
        forall|k: int| from <= k < i ==> (#[trigger] members[k]).0@ != members[i].0@,
    ensures
        json::member_from(members, members[i].0@, from) == Some(members[i].1),
    decreases i - from,
{
    if from < i {
        assert(members[from].0@ != members[i].0@);
        lemma_member(members, from + 1, i);
    }
}

proof fn lemma_no_member(members: Seq<(String, Json)>, key: Seq<char>, from: int)
    requires
        0 <= from,
        forall|k: int| from <= k < members.len() ==> (#[trigger] members[k]).0@ != key,
    ensures
        json::member_from(members, key, from) is None,
    decreases members.len() - from,
{
    if from < members.len() {
        assert(members[from].0@ != key);
        lemma_no_member(members, key, from + 1);
    }
}

/// A member of an object is found under its own key, and nothing is found under a key that no
/// member has.
pub proof fn members_are_found_under_their_keys(
    members: Vec<(String, Json)>,
    key: &str,
    r: Option<&Json>,
    i: int,
)
    requires
        call_ensures(Json::get, (&Json::Object(members), key), r),
    ensures
        0 <= i < members@.len() && members@[i].0@ == key@ && (forall|k: int|
            0 <= k < i ==> (#[trigger] members@[k]).0@ != key@) ==> r is Some && *r->0
            == members@[i].1,
        (forall|k: int| 0 <= k < members@.len() ==> (#[trigger] members@[k]).0@ != key@)
            ==> r is None,
{
    if 0 <= i < members@.len() && members@[i].0@ == key@ && (forall|k: int|
        0 <= k < i ==> (#[trigger] members@[k]).0@ != key@) {
        lemma_member(members@, 0, i);
    }
    if forall|k: int| 0 <= k < members@.len() ==> (#[trigger] members@[k]).0@ != key@ {
        lemma_no_member(members@, key@, 0);
    }
}

/// A member is read as what it is: a text as a text, a whole number as a number, a number by its
/// bits, the value true as true. Anything else, and what is missing, gives the default.
pub proof fn members_are_read_as_what_they_are(
    object: &Json,
    key: &str,
    default: &str,
    n: i64,
    found: Option<&Json>,
    worded: String,
    optional: Option<String>,
    whole: i64,
    measured: Option<Real>,
    truth: bool,
)
    requires
        call_ensures(Json::get, (object, key), found),
        call_ensures(Json::get_text, (object, key, default), worded),
        call_ensures(Json::get_opt_text, (object, key), optional),
        call_ensures(Json::get_i64, (object, key, n), whole),
        call_ensures(Json::get_real, (object, key), measured),
        call_ensures(Json::get_bool, (object, key), truth),
    ensures
        found is Some && *found->0 is Text ==> worded@ == (*found->0)->Text_0@ && optional is Some
            && optional->0@ == (*found->0)->Text_0@,
        !(found is Some && *found->0 is Text) ==> worded@ == default@ && optional is None,
        found is Some && *found->0 is Number ==> measured is Some && (measured->0).bits
            == (*found->0)->Number_bits,
        !(found is Some && *found->0 is Number) ==> measured is None && whole == n,
        found is Some && *found->0 is Number && (*found->0)->Number_integer is Some ==> whole
            == (*found->0)->Number_integer->0,
        found is Some && *found->0 is Number && (*found->0)->Number_integer is None ==> whole == n,
        truth <==> found is Some && *found->0 == Json::Bool(true),
{
}

/// A text is known by the digest of its bytes, and content by its own; a secret key is 64 digits,
/// two for each byte, the higher first.
pub proof fn digests_and_keys_go_by_their_bytes(
    s: &str,
    bytes: &[u8],
    of_text: String,
    of_bytes: String,
    digest: [u8; 32],
    key: Result<[u8; 32], KeyError>,
    i: int,
)
    requires
        bytes@ == encode_utf8(s@),
        call_ensures(hash::hash_text, (s,), of_text),
        call_ensures(hash::hash_bytes, (bytes,), of_bytes),
        call_ensures(hash::hash_data, (bytes,), digest),
        call_ensures(hash::decode_secret_key, (s,), key),
    ensures
        of_text@ == of_bytes@,
        of_bytes@ == hash::hex_lower(digest@),
        key is Ok ==> s@.len() == 64,
        key is Ok && 0 <= i < 32 ==> hash::hex_value(s@[2 * i]) is Some && hash::hex_value(
            s@[2 * i + 1],
        ) is Some && (key->Ok_0)@[i] == 16 * hash::hex_value(s@[2 * i])->0 + hash::hex_value(
            s@[2 * i + 1],
        )->0,
        key is Err && key->Err_0 is WrongLength ==> s@.len() == 2 * key->Err_0->WrongLength_0
            && s@.len() != 64,
{
    if key is Ok && 0 <= i < 32 {
        assert(hash::hex_value(s@[2 * i]) is Some);
        assert(hash::hex_value(s@[2 * i + 1]) is Some);
    }
}

/// The identifiers of topics, files and messages are digests of what they are made from, each with
/// its own beginning.
pub proof fn identifiers_are_digests(
    a: &str,
    b: &str,
    c: &str,
    d: &str,
    now: i64,
    group: String,
    workspace: String,
    board: String,
    chat: String,
    direct: String,
    peer: String,
    path: String,
    named: String,
    group_topic: [u8; 32],
    discovery_topic: [u8; 32],
)
    requires
        call_ensures(ids::new_group_id, (a, b), group),
        call_ensures(ids::new_workspace_id, (a, b), workspace),
        call_ensures(ids::new_board_id, (a, b), board),
        call_ensures(ids::new_chat_id, (a, b, c), chat),
        call_ensures(ids::new_direct_message_id, (a, b, c, d), direct),
        call_ensures(ids::new_peer_message_id, (a, b, c), peer),
        call_ensures(ids::new_path_file_id, (a, b), path),
        call_ensures(ids::new_named_file_id, (a, b, now), named),
        call_ensures(ids::make_group_topic_id, (a,), group_topic),
        call_ensures(ids::make_discovery_topic_id, (a,), discovery_topic),
    ensures
        group@ == hash::text_id(a@ + "-"@ + b@),
        workspace@ == hash::text_id("ws:"@ + a@ + "-"@ + b@),
        board@ == hash::text_id("wb:"@ + a@ + "-"@ + b@),
        chat@ == hash::text_id("chat:"@ + a@ + "-"@ + b@ + "-"@ + c@),
        direct@ == hash::text_id("dm:"@ + a@ + "-"@ + b@ + "-"@ + c@ + "-"@ + d@),
        peer@ == hash::text_id("dm:"@ + a@ + "-"@ + b@ + "-"@ + c@),
        path@ == hash::text_id("file:"@ + a@ + ":"@ + b@),
        named@ == hash::text_id("file:"@ + a@ + ":"@ + b@ + ":"@ + text::int_text(now as int)),
        group_topic@ == hash::blake3_digest(encode_utf8("cyan/group/"@ + a@)),
        discovery_topic@ == hash::blake3_digest(encode_utf8("cyan/discovery/"@ + a@)),
{
}

/// An invitation that was made for someone is accepted from them, for the same workspace and expiry
/// time, until it has expired; one that is not stored, or has expired, is not.
pub proof fn invitations_are_accepted_from_the_invited(
    secret_key: &[u8],
    nonce: u64,
    invitee: &[u8],
    workspace_id: &[u8],
    expiry: u64,
    i: Invitation,
    stored: Option<u64>,
    now: u64,
    code: &[u8],
    salt: &[u8],
    number: &[u8],
    accepted: bool,
)
    requires
        call_ensures(
            invitation::create_invitation,
            (secret_key, nonce, invitee, workspace_id, expiry),
            i,
        ),
        code@ == i.code@,
        salt@ == i.nonce@,
        number@ == i.hash@,
        call_ensures(
            invitation::accept_invitation,
            (stored, now, code, salt, number, invitee, workspace_id, expiry),
            accepted,
        ),
    ensures
        stored is Some && now <= stored->0 ==> accepted,
        stored is None ==> !accepted,
        stored is Some && now > stored->0 ==> !accepted,
        i.code@.len() == 32 && i.nonce@.len() == 32 && i.hash@.len() == 32,
        invitation::le_value(i.nonce@) == nonce,
        invitation::le_value(i.code@) == invitation::le_value(secret_key@.take(32))
            % invitation::field_order(),
{
    if stored is Some && now <= stored->0 {
        invitation::an_invitation_is_good_for_its_invitee(
            i,
            secret_key@,
            nonce,
            invitee@,
            workspace_id@,
            expiry,
            if now <= expiry {
                now
            } else {
                expiry
            },
        );
    }
}

/// What is stored and handed out of an invitation: the number that binds it, the workspace, who
/// invites by the first bytes of their identifier and who is invited by the digest of theirs; and
/// the code, the nonce and the number, one behind the other, where they fit.
pub proof fn invitations_are_stored_and_handed_out(
    i: &Invitation,
    workspace_id: Vec<u8>,
    inviter: &[u8],
    invitee: &[u8],
    expiry: u64,
    now: u64,
    record: InvitationRecord,
    capacity: usize,
    bytes: Option<Vec<u8>>,
)
    requires
        i.code@.len() == 32,
        i.nonce@.len() == 32,
        i.hash@.len() == 32,
        inviter@.len() >= 32,
        call_ensures(
            Invitation::record,
            (i, workspace_id, inviter, invitee, expiry, now),
            record,
        ),
        call_ensures(Invitation::to_bytes, (i, capacity), bytes),
    ensures
        record.invitation_hash@ == i.hash@,
        record.workspace_id@ == workspace_id@,
        record.inviter_id@ == inviter@.take(32),
        record.invitee_id@ == hash::blake3_digest(invitee@),
        record.expiry_time == expiry,
        record.created_at == now,
        bytes is Some <==> capacity >= 96,
        bytes is Some ==> bytes->0@.len() == 96 && bytes->0@.subrange(0, 32) == i.code@
            && bytes->0@.subrange(32, 64) == i.nonce@ && bytes->0@.subrange(64, 96) == i.hash@,
{
    if bytes is Some {
        assert(bytes->0@.subrange(0, 32) =~= i.code@);
        assert(bytes->0@.subrange(32, 64) =~= i.nonce@);
        assert(bytes->0@.subrange(64, 96) =~= i.hash@);
    }
}

/// What is about integrations is for the console: their events, status and graphs, and the
/// analyst's remarks.
pub proof fn the_console_shows_integrations(event: &SwiftEvent, r: bool)
    requires
        call_ensures(SwiftEvent::is_integration_event, (event,), r),
    ensures
        event is IntegrationEvent || event is IntegrationStatus || event is IntegrationGraph
            || event is AIInsight ==> r,
        event is Network || event is TreeLoaded || event is StatusUpdate
            || event is DirectMessageReceived || event is GroupDeleted || event is WorkspaceDeleted
            || event is BoardDeleted || event is ChatDeleted || event is PeerJoined
            || event is PeerLeft || event is ChatStreamReady || event is ChatStreamClosed
            || event is FileDownloadProgress || event is FileDownloaded
            || event is FileDownloadFailed ==> !r,
{
}

/// The first line ends before the first line break, and before the carriage return in front of it;
/// a text without line breaks is a line.
pub proof fn the_first_line_ends_at_a_break(s: &str, r: String, line: Seq<char>, rest: Seq<char>)
    requires
        call_ensures(strings::first_line, (s,), r),
        !line.contains('\n'),
    ensures
        s@ == line ==> r@ == line,
        s@ == line + seq!['\n'] + rest ==> r@ == (if line.len() > 0 && line.last() == '\r' {
            line.drop_last()
        } else {
            line
        }),
{
    if s@ == line {
        assert forall|i: int| 0 <= i < s@.len() implies s@[i] != '\n' by {
            assert(line.contains(s@[i]));
        }
        lemma_break(s@, 0, s@.len() as int);
    }
    if s@ == line + seq!['\n'] + rest {
        assert forall|i: int| 0 <= i < line.len() implies s@[i] != '\n' by {
            assert(s@[i] == line[i]);
            assert(line.contains(line[i]));
        }
        assert(s@[line.len() as int] == '\n');
        lemma_break(s@, 0, line.len() as int);
        assert(s@.take(line.len() as int) =~= line);
        if line.len() > 0 {
            assert(s@.take(line.len() - 1) =~= line.drop_last());
            assert(s@[line.len() - 1] == line.last());
        }
    }
}

proof fn lemma_break(s: Seq<char>, from: int, n: int)
    requires
        0 <= from <= n <= s.len(),
        forall|i: int| from <= i < n ==> s[i] != '\n',
        n == s.len() || s[n] == '\n',
    ensures
        strings::first_break(s, from) == n,
    decreases n - from,
{
    if from < n {
        lemma_break(s, from + 1, n);
    }
}

/// A frame is four bytes and the payload. Read from the front of what was received it gives the
/// payload, as long as that is within the limit; one over the limit is refused, and one that has
/// not arrived in full is waited for.
pub proof fn frames_carry_their_payload(
    payload: &Vec<u8>,
    framed: Vec<u8>,
    received: &Vec<u8>,
    rest: Seq<u8>,
    limit: usize,
    step: FrameStep,
    part: &Vec<u8>,
    early: FrameStep,
)
    requires
        payload@.len() <= u32::MAX,
        call_ensures(frame::encode_frame, (payload,), framed),
        received@ == framed@ + rest,
        call_ensures(frame::decode_frame, (received, limit), step),
        part@.len() < framed@.len(),
        part@ == framed@.take(part@.len() as int),
        call_ensures(frame::decode_frame, (part, limit), early),
    ensures
        framed@.len() == 4 + payload@.len(),
        framed@.skip(4) == payload@,
        payload@.len() <= limit ==> (step matches FrameStep::Frame { payload: p, used } && p@
            == payload@ && used == 4 + payload@.len()),
        payload@.len() <= limit ==> early is Incomplete,
        payload@.len() > limit ==> (step matches FrameStep::TooLarge(n) && n == payload@.len()),
        part@.len() < 4 ==> early is Incomplete,
        framed@[0] == payload@.len() / 16777216,
        framed@[3] == payload@.len() % 256,
{
    assert(framed@.skip(4) =~= payload@);
    let n = payload@.len() as u32;
    if payload@.len() <= limit {
        frame::frame_round_trip(payload@, rest, limit, step);
        assert(received@.skip(4 + payload@.len() as int) =~= rest);
        assert(frame::prefix_value(received@) == payload@.len()) by {
            frame::prefixes_read_back(n);
            assert(received@[0] == framed@[0] && received@[1] == framed@[1]);
            assert(received@[2] == framed@[2] && received@[3] == framed@[3]);
        }
    } else {
        frame::oversized_frame_is_refused(payload@, rest, limit, step);
    }
    if part@.len() >= 4 {
        frame::prefixes_read_back(n);
        assert(part@[0] == framed@[0] && part@[1] == framed@[1]);
        assert(part@[2] == framed@[2] && part@[3] == framed@[3]);
    }
}

/// A length prefix that was read is refused only where it is over the limit; the reason says how
/// long the message was.
pub proof fn long_messages_are_refused(
    prefix: &[u8; 4],
    limit: usize,
    r: Result<usize, usize>,
    len: u64,
    chat: String,
    direct: String,
    number: String,
)
    requires
        call_ensures(frame::frame_length, (prefix, limit), r),
        call_ensures(frame::chat_too_large, (len,), chat),
        call_ensures(frame::dm_too_large, (len,), direct),
        call_ensures(text::u64_text, (len,), number),
    ensures
        ({
            let n = ((prefix@[0] * 256 + prefix@[1]) * 256 + prefix@[2]) * 256 + prefix@[3];
            &&& r is Ok <==> n <= limit
            &&& r is Ok ==> r->Ok_0 == n
            &&& r is Err ==> r->Err_0 == n
        }),
        chat@ == "Chat message too large: "@ + number@ + " bytes"@,
        direct@ == "DM frame too large: "@ + number@ + " bytes"@,
{
}

/// There are as many marks as there are parameters, with a comma between one and the next.
pub proof fn marks_stand_for_parameters(n: usize, r: String, i: int)
    requires
        call_ensures(snapshot::placeholders, (n,), r),
        0 <= i < n,
    ensures
        r@.len() == 2 * n - 1,
        r@[2 * i] == '?',
        i > 0 ==> r@[2 * i - 1] == ',',
{
    lemma_marks(n as nat, i);
}

proof fn lemma_marks(n: nat, i: int)
    requires
        0 <= i < n,
    ensures
        snapshot::marks(n).len() == 2 * n - 1,
        snapshot::marks(n)[2 * i] == '?',
        i > 0 ==> snapshot::marks(n)[2 * i - 1] == ',',
    decreases n,
{
    reveal_strlit("?");
    reveal_strlit(",?");
    if n > 1 {
        lemma_marks((n - 1) as nat, if i < n - 1 {
            i
        } else {
            0
        });
    }
}

/// What hangs on the workspaces of a group is looked up by each of them, in order, with a mark for
/// each; where there are none nothing is looked up.
pub proof fn workspaces_are_looked_up_in_order(
    workspaces: &Vec<Workspace>,
    r: Option<WorkspaceFilter>,
    i: int,
)
    requires
        call_ensures(snapshot::workspace_filter, (workspaces,), r),
    ensures
        r is None <==> workspaces@.len() == 0,
        r is Some ==> (r->0).ids@.len() == workspaces@.len() && (r->0).placeholders@.len() == 2
            * workspaces@.len() - 1,
        r is Some && 0 <= i < workspaces@.len() ==> (r->0).ids@[i]@ == workspaces@[i].id@
            && (r->0).placeholders@[2 * i] == '?',
{
    if r is Some {
        lemma_marks(
            workspaces@.len(),
            if 0 <= i < workspaces@.len() {
                i
            } else {
                0
            },
        );
    }
}

/// Messages of a chat may have one mebibyte and direct messages ten.
pub proof fn direct_messages_may_be_longer()
    ensures
        frame::CHAT_FRAME_LIMIT == 1024 * 1024,
        frame::DM_FRAME_LIMIT == 10 * frame::CHAT_FRAME_LIMIT,
{
}

/// A text that says where an upload goes is refused where it is no JSON, with the reason.
pub proof fn unreadable_scopes_are_refused(t: &str, r: Result<Json, String>)
    requires
        call_ensures(files::read_scope_text, (t,), r),
    ensures
        r is Ok <==> json::parsed_json(t@) is Some,
        r is Ok ==> Some(r->Ok_0) == json::parsed_json(t@),
        r is Err ==> r->Err_0@ == "Invalid scope JSON: "@ + json::json_error(t@),
{
}

/// What is said of a refusal.
pub proof fn refusals_say_why(
    upload: &UploadError,
    of_upload: String,
    invite: &InviteError,
    of_invite: String,
    config: &ConfigError,
    of_config: String,
    start: &StartError,
    of_start: String,
)
    requires
        call_ensures(UploadError::message, (upload,), of_upload),
        call_ensures(InviteError::message, (invite,), of_invite),
        call_ensures(ConfigError::message, (config,), of_config),
        call_ensures(StartError::message, (start,), of_start),
    ensures
        upload is UnknownScope ==> of_upload@ == "Unknown scope type"@,
        upload is NoGroup ==> of_upload@ == "Could not determine group"@,
        invite is Unreadable ==> of_invite@ == "Parse error: "@ + invite->Unreadable_0@,
        invite is MissingGroupId ==> of_invite@ == "Missing group_id"@,
        invite is MissingGroupName ==> of_invite@ == "Missing group_name"@,
        config is NotConfigured ==> of_config@ == "No "@ + config->NotConfigured_0@
            + " integration configured. Right-click a workspace to add one."@,
        config is Invalid ==> of_config@ == "Invalid integration config"@,
        start is UnknownType ==> of_start@ == "Unknown integration type: "@ + start->UnknownType_0@,
        start is BadScope ==> of_start@ == "scope_type must be 'group' or 'workspace'"@,
        start is AlreadyRunning ==> of_start@ == "Integration already running for this scope"@,
        start is Failed ==> of_start@ == "Failed to start integration: "@ + start->Failed_0@,
        start is NotSaved ==> of_start@ == "Failed to save binding: "@ + start->NotSaved_0@,
{
}

} // verus!
